//! A minimal Go-template-like renderer: `{{.Var}}` substitution and
//! `{{if .Cond}} ... {{else}} ... {{end}}` blocks over a case-insensitive context.
use vstd::prelude::*;
use crate::text::{
    chars_of, chars_of_string, eq_chars, extend, find_from, find_from_exec, lemma_find_from_spec,
    is_ws, lower, lower_exec, occurs_at, slice, starts_with, starts_with_exec, starts_with_str,
    string_of, strip_or_keep, strip_prefix, trim, trim_bounds, trim_end, trim_exec, trim_start,
};

verus! {

/// A value bound in a [`Context`].
#[derive(Debug)]
pub enum Value {
    Str(String),
    Bool(bool),
}

/// The mathematical form of a [`Value`].
pub ghost enum ValV {
    Str(Seq<char>),
    Bool(bool),
}

/// Conditions treat non-empty strings and `true` as true.
pub open spec fn val_truthy(v: ValV) -> bool {
    match v {
        ValV::Bool(b) => b,
        ValV::Str(s) => s.len() > 0,
    }
}

/// The text a value renders as.
pub open spec fn val_text(v: ValV) -> Seq<char> {
    match v {
        ValV::Bool(b) => if b {
            seq!['t', 'r', 'u', 'e']
        } else {
            seq!['f', 'a', 'l', 's', 'e']
        },
        ValV::Str(s) => s,
    }
}

impl View for Value {
    type V = ValV;

    open spec fn view(&self) -> ValV {
        match self {
            Value::Str(s) => ValV::Str(s@),
            Value::Bool(b) => ValV::Bool(*b),
        }
    }
}

impl Value {
    pub fn truthy(&self) -> (b: bool)
        ensures
            b == val_truthy(self@),
    {
        match self {
            Value::Bool(b) => *b,
            Value::Str(s) => !s.as_str().is_empty(),
        }
    }

    pub fn as_str(&self) -> (s: String)
        ensures
            s@ == val_text(self@),
    {
        match self {
            Value::Bool(b) => {
                if *b {
                    let s = String::from_str("true");
                    proof {
                        reveal_strlit("true");
                    }
                    s
                } else {
                    let s = String::from_str("false");
                    proof {
                        reveal_strlit("false");
                    }
                    s
                }
            },
            Value::Str(s) => s.clone(),
        }
    }
}

impl Clone for Value {
    fn clone(&self) -> (r: Self)
        ensures
            r == *self,
    {
        match self {
            Value::Str(s) => Value::Str(s.clone()),
            Value::Bool(b) => Value::Bool(*b),
        }
    }
}

/// The bindings held by a list of entries: a later entry for a key shadows an earlier one.
pub open spec fn entries_map(es: Seq<(Vec<char>, Value)>) -> Map<Seq<char>, ValV>
    decreases es.len(),
{
    if es.len() == 0 {
        Map::empty()
    } else {
        entries_map(es.drop_last()).insert(es.last().0@, es.last().1@)
    }
}

/// The value a context binds to `key`, keys compared after ASCII lowercasing.
pub open spec fn var_of(vars: Map<Seq<char>, ValV>, key: Seq<char>) -> Option<ValV> {
    if vars.contains_key(lower(key)) {
        Some(vars[lower(key)])
    } else {
        None
    }
}

/// Template context. Keys are stored case-insensitively (ASCII-lowercased);
/// a later binding of a key shadows an earlier one.
#[derive(Debug)]
pub struct Context {
    entries: Vec<(Vec<char>, Value)>,
}

impl Context {
    /// The bindings, by lowercased key.
    pub closed spec fn vars(&self) -> Map<Seq<char>, ValV> {
        entries_map(self.entries@)
    }

    pub fn new() -> (c: Self)
        ensures
            c.vars() == Map::<Seq<char>, ValV>::empty(),
    {
        Context { entries: Vec::new() }
    }

    fn bind(self, key: &str, v: Value) -> (r: Self)
        ensures
            r.vars() == self.vars().insert(lower(key@), v@),
    {
        let kc = chars_of(key);
        let lk = lower_exec(&kc);
        let mut entries = self.entries;
        let ghost old_entries = entries@;
        entries.push((lk, v));
        assert(entries@.drop_last() == old_entries);
        Context { entries }
    }

    /// Binds `key` (case-insensitively) to the string `val`.
    pub fn set_str(self, key: &str, val: String) -> (r: Self)
        ensures
            r.vars() == self.vars().insert(lower(key@), ValV::Str(val@)),
    {
        self.bind(key, Value::Str(val))
    }

    /// Binds `key` (case-insensitively) to the boolean `val`.
    pub fn set_bool(self, key: &str, val: bool) -> (r: Self)
        ensures
            r.vars() == self.vars().insert(lower(key@), ValV::Bool(val)),
    {
        self.bind(key, Value::Bool(val))
    }

    fn lookup_chars(&self, lk: &Vec<char>) -> (r: Option<&Value>)
        ensures
            match r {
                Some(v) => self.vars().contains_key(lk@) && self.vars()[lk@] == v@,
                None => !self.vars().contains_key(lk@),
            },
    {
        let mut i = self.entries.len();
        while i > 0
            invariant
                i <= self.entries.len(),
                forall|j: int| i <= j < self.entries.len() ==> (#[trigger] self.entries@[j]).0@ != lk@,
            decreases i,
        {
            if eq_chars(&self.entries[i - 1].0, lk) {
                proof {
                    let pre = self.entries@.subrange(0, i as int);
                    assert(pre.last() == self.entries@[i - 1]);
                    lemma_entries_map_prefix(self.entries@, i as int, lk@);
                }
                return Some(&self.entries[i - 1].1);
            }
            i = i - 1;
        }
        proof {
            lemma_entries_map_prefix(self.entries@, 0, lk@);
        }
        None
    }

    fn get_chars(&self, key: &Vec<char>) -> (r: Option<&Value>)
        ensures
            match r {
                Some(v) => var_of(self.vars(), key@) == Some(v@),
                None => var_of(self.vars(), key@) is None,
            },
    {
        let lk = lower_exec(key);
        self.lookup_chars(&lk)
    }

    /// The value bound to `key`, compared case-insensitively.
    pub fn get(&self, key: &str) -> (r: Option<&Value>)
        ensures
            match r {
                Some(v) => var_of(self.vars(), key@) == Some(v@),
                None => var_of(self.vars(), key@) is None,
            },
    {
        let kc = chars_of(key);
        self.get_chars(&kc)
    }
}

impl Clone for Context {
    fn clone(&self) -> (r: Self)
        ensures
            r.vars() == self.vars(),
    {
        let mut entries: Vec<(Vec<char>, Value)> = Vec::new();
        let mut i: usize = 0;
        while i < self.entries.len()
            invariant
                i <= self.entries.len(),
                entries@.len() == i,
                forall|j: int|
                    0 <= j < i ==> (#[trigger] entries@[j]).0@ == self.entries@[j].0@
                        && entries@[j].1@ == self.entries@[j].1@,
            decreases self.entries.len() - i,
        {
            let k = self.entries[i].0.clone();
            let v = self.entries[i].1.clone();
            entries.push((k, v));
            i = i + 1;
        }
        let r = Context { entries };
        proof {
            lemma_entries_map_same(r.entries@, self.entries@);
        }
        r
    }
}

impl Default for Context {
    fn default() -> (c: Self)
        ensures
            c.vars() == Map::<Seq<char>, ValV>::empty(),
    {
        Context::new()
    }
}

/// A key that no entry from position `i` on binds has the binding it has in the first `i` entries.
proof fn lemma_entries_map_prefix(es: Seq<(Vec<char>, Value)>, i: int, k: Seq<char>)
    requires
        0 <= i <= es.len(),
        forall|j: int| i <= j < es.len() ==> (#[trigger] es[j]).0@ != k,
    ensures
        entries_map(es).contains_key(k) == entries_map(es.subrange(0, i)).contains_key(k),
        entries_map(es).contains_key(k) ==> entries_map(es)[k] == entries_map(es.subrange(0, i))[k],
    decreases es.len(),
{
    if es.len() == i {
        assert(es.subrange(0, i) == es);
    } else {
        assert(es.last() == es[es.len() - 1]);
        assert(es.drop_last().subrange(0, i) == es.subrange(0, i));
        lemma_entries_map_prefix(es.drop_last(), i, k);
    }
}

proof fn lemma_entries_map_same(a: Seq<(Vec<char>, Value)>, b: Seq<(Vec<char>, Value)>)
    requires
        a.len() == b.len(),
        forall|j: int| 0 <= j < a.len() ==> (#[trigger] a[j]).0@ == b[j].0@ && a[j].1@ == b[j].1@,
    ensures
        entries_map(a) == entries_map(b),
    decreases a.len(),
{
    if a.len() > 0 {
        assert(a.last() == a[a.len() - 1]);
        lemma_entries_map_same(a.drop_last(), b.drop_last());
    }
}

/// Why a template could not be rendered.
#[derive(Debug, Clone, Copy, PartialEq, Eq)]
pub enum RenderError {
    /// `{{` without a closing `}}`.
    UnterminatedAction,
    /// `{{else}}` outside any `{{if}}`.
    UnexpectedElse,
    /// A second `{{else}}` in the same `{{if}}`.
    DuplicateElse,
    /// `{{end}}` outside any `{{if}}`.
    UnexpectedEnd,
    /// An `{{if}}` that is never closed.
    UnclosedIf,
}

impl RenderError {
    pub open spec fn message_spec(self) -> Seq<char> {
        match self {
            RenderError::UnterminatedAction => "unterminated template action"@,
            RenderError::UnexpectedElse => "unexpected {else}"@,
            RenderError::DuplicateElse => "duplicate {else}"@,
            RenderError::UnexpectedEnd => "unexpected {end}"@,
            RenderError::UnclosedIf => "unclosed {if} block"@,
        }
    }

    /// The error text.
    pub fn message(&self) -> (s: String)
        ensures
            s@ == self.message_spec(),
    {
        match self {
            RenderError::UnterminatedAction => String::from_str("unterminated template action"),
            RenderError::UnexpectedElse => String::from_str("unexpected {else}"),
            RenderError::DuplicateElse => String::from_str("duplicate {else}"),
            RenderError::UnexpectedEnd => String::from_str("unexpected {end}"),
            RenderError::UnclosedIf => String::from_str("unclosed {if} block"),
        }
    }
}

/// One open `{{if}}`: whether its current branch is active, whether `{{else}}`
/// was seen, and whether the enclosing text is active.
pub type Frame = (bool, bool, bool);

pub open spec fn open_delim() -> Seq<char> {
    seq!['{', '{']
}

pub open spec fn close_delim() -> Seq<char> {
    seq!['}', '}']
}

pub open spec fn if_kw() -> Seq<char> {
    seq!['i', 'f', ' ']
}

/// The variable named by an action or a condition: a leading `.` dropped, then trimmed.
pub open spec fn var_name(a: Seq<char>) -> Seq<char> {
    trim(strip_or_keep(a, seq!['.']))
}

/// The result at the end of the input.
pub open spec fn finish(stack: Seq<Frame>, out: Seq<char>) -> Result<Seq<char>, RenderError> {
    if stack.len() > 0 {
        Err(RenderError::UnclosedIf)
    } else {
        Ok(out)
    }
}

/// Whether the condition of `{{if c}}` holds: the variable is bound to a truthy value.
pub open spec fn cond_holds(ctx: Map<Seq<char>, ValV>, c: Seq<char>) -> bool {
    match var_of(ctx, var_name(trim(c))) {
        Some(v) => val_truthy(v),
        None => false,
    }
}

/// The effect of one action `a` on the state, continuing at position `j`.
pub open spec fn step(
    ctx: Map<Seq<char>, ValV>,
    s: Seq<char>,
    j: int,
    a: Seq<char>,
    stack: Seq<Frame>,
    active: bool,
    out: Seq<char>,
) -> Result<Seq<char>, RenderError>
    recommends
        j <= s.len(),
    decreases s.len() - j, 1int,
{
    if j < 0 || j > s.len() {
        Err(RenderError::UnterminatedAction)
    } else if starts_with(a, if_kw()) {
        let b = active && cond_holds(ctx, a.subrange(3, a.len() as int));
        run(ctx, s, j, stack.push((b, false, active)), b, out)
    } else if a == seq!['e', 'l', 's', 'e'] {
        if stack.len() == 0 {
            Err(RenderError::UnexpectedElse)
        } else if stack.last().1 {
            Err(RenderError::DuplicateElse)
        } else {
            let p = stack.last().2;
            let b = p && !stack.last().0;
            run(ctx, s, j, stack.drop_last().push((b, true, p)), b, out)
        }
    } else if a == seq!['e', 'n', 'd'] {
        if stack.len() == 0 {
            Err(RenderError::UnexpectedEnd)
        } else {
            run(ctx, s, j, stack.drop_last(), stack.last().2, out)
        }
    } else if !active || var_name(a).len() == 0 {
        run(ctx, s, j, stack, active, out)
    } else {
        match var_of(ctx, var_name(a)) {
            Some(v) => run(ctx, s, j, stack, active, out + val_text(v)),
            None => run(ctx, s, j, stack, active, out),
        }
    }
}

/// Rendering of `s` from position `i` in the given state.
pub open spec fn run(
    ctx: Map<Seq<char>, ValV>,
    s: Seq<char>,
    i: int,
    stack: Seq<Frame>,
    active: bool,
    out: Seq<char>,
) -> Result<Seq<char>, RenderError>
    decreases s.len() - i, 0int,
{
    if i < 0 || i >= s.len() {
        finish(stack, out)
    } else {
        match find_from(s, open_delim(), i) {
            None => finish(stack, if active { out + s.subrange(i, s.len() as int) } else { out }),
            Some(start) => {
                let out1 = if active { out + s.subrange(i, start) } else { out };
                match find_from(s, close_delim(), start + 2) {
                    None => Err(RenderError::UnterminatedAction),
                    Some(end) => if i <= start && start + 2 <= end && end + 2 <= s.len() {
                        step(ctx, s, end + 2, trim(s.subrange(start + 2, end)), stack, active, out1)
                    } else {
                        Err(RenderError::UnterminatedAction)
                    },
                }
            },
        }
    }
}

/// What `render(input, ctx)` returns.
pub open spec fn render_spec(input: Seq<char>, ctx: Map<Seq<char>, ValV>) -> Result<Seq<char>, RenderError> {
    run(ctx, input, 0, Seq::empty(), true, Seq::empty())
}

/// Renders a template supporting `{{.Var}}` and `{{if .Cond}} ... {{else}} ... {{end}}`.
///
/// Unknown variables render as empty; conditions treat non-empty strings as true.
pub fn render(input: &str, ctx: &Context) -> (r: Result<String, RenderError>)
    ensures
        match r {
            Ok(o) => render_spec(input@, ctx.vars()) == Ok::<Seq<char>, RenderError>(o@),
            Err(e) => render_spec(input@, ctx.vars()) == Err::<Seq<char>, RenderError>(e),
        },
{
    let s = chars_of(input);
    let n = s.len();
    let open = chars_of("{{");
    let close = chars_of("}}");
    let else_kw = chars_of("else");
    let end_kw = chars_of("end");
    let dot = chars_of(".");
    proof {
        reveal_strlit("{{");
        reveal_strlit("}}");
        reveal_strlit("else");
        reveal_strlit("end");
        reveal_strlit(".");
        assert(open@ == open_delim());
        assert(close@ == close_delim());
        assert(else_kw@ == seq!['e', 'l', 's', 'e']);
        assert(end_kw@ == seq!['e', 'n', 'd']);
        assert(dot@ == seq!['.']);
    }
    let mut out: Vec<char> = Vec::new();
    let mut i: usize = 0;
    let mut stack: Vec<Frame> = Vec::new();
    let mut active = true;
    loop
        invariant
            n == s@.len(),
            s@ == input@,
            open@ == open_delim(),
            close@ == close_delim(),
            else_kw@ == seq!['e', 'l', 's', 'e'],
            end_kw@ == seq!['e', 'n', 'd'],
            dot@ == seq!['.'],
            i <= n,
            render_spec(input@, ctx.vars()) == run(ctx.vars(), s@, i as int, stack@, active, out@),
        decreases n - i,
    {
        if i >= n {
            if stack.len() > 0 {
                return Err(RenderError::UnclosedIf);
            }
            return Ok(string_of(&out));
        }
        let ghost i0 = i as int;
        let ghost stack0 = stack@;
        let ghost active0 = active;
        let ghost out0 = out@;
        let found = find_from_exec(&s, &open, i);
        proof {
            lemma_find_from_spec(s@, open@, i as int);
        }
        match found {
            None => {
                if active {
                    let rest = slice(&s, i, n);
                    extend(&mut out, &rest);
                }
                if stack.len() > 0 {
                    return Err(RenderError::UnclosedIf);
                }
                return Ok(string_of(&out));
            },
            Some(start) => {
                if active {
                    let text = slice(&s, i, start);
                    extend(&mut out, &text);
                }
                let found_end = find_from_exec(&s, &close, start + 2);
                proof {
                    lemma_find_from_spec(s@, close@, start + 2);
                }
                match found_end {
                    None => {
                        return Err(RenderError::UnterminatedAction);
                    },
                    Some(end) => {
                        let (a, b) = trim_bounds(&s, start + 2, end);
                        let action = slice(&s, a, b);
                        assert(run(ctx.vars(), s@, i0, stack0, active0, out0) == step(
                            ctx.vars(),
                            s@,
                            end + 2,
                            action@,
                            stack0,
                            active0,
                            out@,
                        ));
                        i = end + 2;
                        if starts_with_str(&action, "if ") {
                            proof {
                                reveal_strlit("if ");
                                assert("if "@ == if_kw());
                            }
                            let rest = slice(&action, 3, action.len());
                            let cond = trim_exec(&rest);
                            let stripped = if starts_with_exec(&cond, &dot) {
                                slice(&cond, 1, cond.len())
                            } else {
                                cond.clone()
                            };
                            let key = trim_exec(&stripped);
                            let cond_val = match ctx.get_chars(&key) {
                                Some(v) => v.truthy(),
                                None => false,
                            };
                            assert(stripped@ == strip_or_keep(cond@, seq!['.']));
                            assert(cond_val == cond_holds(ctx.vars(), action@.subrange(3, action@.len() as int)));
                            let parent_active = active;
                            let branch_active = parent_active && cond_val;
                            stack.push((branch_active, false, parent_active));
                            active = branch_active;
                        } else if eq_chars(&action, &else_kw) {
                            proof {
                                assert(!starts_with(action@, if_kw())) by {
                                    reveal_strlit("if ");
                                }
                            }
                            match stack.pop() {
                                None => {
                                    return Err(RenderError::UnexpectedElse);
                                },
                                Some(frame) => {
                                    let (branch_active, has_else, parent_active) = frame;
                                    if has_else {
                                        return Err(RenderError::DuplicateElse);
                                    }
                                    let new_branch_active = parent_active && !branch_active;
                                    stack.push((new_branch_active, true, parent_active));
                                    active = new_branch_active;
                                },
                            }
                        } else if eq_chars(&action, &end_kw) {
                            proof {
                                assert(!starts_with(action@, if_kw())) by {
                                    reveal_strlit("if ");
                                }
                            }
                            match stack.pop() {
                                None => {
                                    return Err(RenderError::UnexpectedEnd);
                                },
                                Some(frame) => {
                                    let (_b, _h, parent_active) = frame;
                                    active = parent_active;
                                },
                            }
                        } else {
                            proof {
                                reveal_strlit("if ");
                                assert("if "@ == if_kw());
                            }
                            if active {
                                let stripped = if starts_with_exec(&action, &dot) {
                                    slice(&action, 1, action.len())
                                } else {
                                    action.clone()
                                };
                                let key = trim_exec(&stripped);
                                assert(stripped@ == strip_or_keep(action@, seq!['.']));
                                assert(key@ == var_name(action@));
                                if key.len() > 0 {
                                    match ctx.get_chars(&key) {
                                        Some(v) => {
                                            let t = v.as_str();
                                            let tc = chars_of_string(&t);
                                            extend(&mut out, &tc);
                                        },
                                        None => {},
                                    }
                                }
                            }
                        }
                    },
                }
            },
        }
    }
}


// ---------------------------------------------------------------------------
// Laws
// ---------------------------------------------------------------------------

/// `c` does not occur in `s`.
pub open spec fn free_of(s: Seq<char>, c: char) -> bool {
    forall|i: int| 0 <= i < s.len() ==> s[i] != c
}

proof fn lemma_find_is(s: Seq<char>, p: Seq<char>, i: int, k: int)
    requires
        0 <= i <= k,
        occurs_at(s, p, k),
        forall|j: int| i <= j < k ==> !occurs_at(s, p, j),
    ensures
        find_from(s, p, i) == Some(k),
    decreases k - i,
{
    if i < k {
        lemma_find_is(s, p, i + 1, k);
    }
}

proof fn lemma_find_none(s: Seq<char>, p: Seq<char>, i: int)
    requires
        0 <= i,
        forall|j: int| i <= j ==> !occurs_at(s, p, j),
    ensures
        find_from(s, p, i) is None,
    decreases s.len() + 1 - i,
{
    if i + p.len() <= s.len() {
        lemma_find_none(s, p, i + 1);
    }
}

/// Text holding no `{` renders from position `i` as itself, appended to the output.
proof fn lemma_run_plain(ctx: Map<Seq<char>, ValV>, s: Seq<char>, i: int, out: Seq<char>)
    requires
        0 <= i <= s.len(),
        forall|j: int| i <= j < s.len() ==> s[j] != '{',
    ensures
        run(ctx, s, i, Seq::empty(), true, out) == Ok::<Seq<char>, RenderError>(
            out + s.subrange(i, s.len() as int),
        ),
{
    if i < s.len() {
        assert forall|j: int| i <= j implies !occurs_at(s, open_delim(), j) by {
            if occurs_at(s, open_delim(), j) {
                assert(s.subrange(j, j + 2)[0] == s[j]);
            }
        }
        lemma_find_none(s, open_delim(), i);
    } else {
        assert(s.subrange(i, s.len() as int) =~= Seq::<char>::empty());
        assert(out + Seq::<char>::empty() =~= out);
    }
}

/// A template without any `{` renders as itself, whatever the context.
pub proof fn law_render_plain_text(input: Seq<char>, ctx: Map<Seq<char>, ValV>)
    requires
        free_of(input, '{'),
    ensures
        render_spec(input, ctx) == Ok::<Seq<char>, RenderError>(input),
{
    lemma_run_plain(ctx, input, 0, Seq::empty());
    assert(Seq::<char>::empty() + input.subrange(0, input.len() as int) =~= input);
}

/// `{{.name}}` renders as the text bound to `name` (compared case-insensitively),
/// and as nothing when `name` is unbound; the text around it is kept.
pub proof fn law_render_variable(
    a: Seq<char>,
    name: Seq<char>,
    b: Seq<char>,
    ctx: Map<Seq<char>, ValV>,
)
    requires
        free_of(a, '{'),
        free_of(b, '{'),
        free_of(name, '{'),
        free_of(name, '}'),
        name.len() > 0,
        !is_ws(name[0]),
        !is_ws(name.last()),
    ensures
        render_spec(a + "{{."@ + name + "}}"@ + b, ctx) == Ok::<Seq<char>, RenderError>(
            a + match var_of(ctx, name) {
                Some(v) => val_text(v),
                None => Seq::empty(),
            } + b,
        ),
{
    reveal_strlit("{{.");
    reveal_strlit("}}");
    let s = a + "{{."@ + name + "}}"@ + b;
    let start = a.len() as int;
    let end: int = (a.len() + 3 + name.len()) as int;
    let q: int = end + 2;
    assert(s.len() == q + b.len());
    assert forall|j: int| 0 <= j < start implies !occurs_at(s, open_delim(), j) by {
        assert(s[j] == a[j]);
        if occurs_at(s, open_delim(), j) {
            assert(s.subrange(j, j + 2)[0] == s[j]);
        }
    }
    assert(s.subrange(start, start + 2) =~= open_delim());
    lemma_find_is(s, open_delim(), 0, start);
    assert forall|j: int| start + 2 <= j < end implies !occurs_at(s, close_delim(), j) by {
        if j == start + 2 {
            assert(s[j] == '.');
        } else {
            assert(s[j] == name[j - start - 3]);
        }
        if occurs_at(s, close_delim(), j) {
            assert(s.subrange(j, j + 2)[0] == s[j]);
        }
    }
    assert(s.subrange(end, end + 2) =~= close_delim());
    lemma_find_is(s, close_delim(), start + 2, end);
    let act = s.subrange(start + 2, end);
    assert(act =~= seq!['.'] + name);
    assert(act[0] == '.');
    assert(trim_start(act) == act);
    assert(act.last() == name.last());
    assert(trim_end(act) == act);
    assert(trim(act) == act);
    assert(strip_prefix(act, seq!['.']) == Some(name)) by {
        assert(act.subrange(0, 1) =~= seq!['.']);
        assert(act.subrange(1, act.len() as int) =~= name);
    }
    assert(trim_start(name) == name);
    assert(trim_end(name) == name);
    assert(var_name(act) == name);
    assert(!starts_with(act, if_kw())) by {
        if starts_with(act, if_kw()) {
            assert(act.subrange(0, 3)[0] == act[0]);
        }
    }
    assert(act != seq!['e', 'l', 's', 'e']) by {
        if act == seq!['e', 'l', 's', 'e'] {
            assert(act[0] == 'e');
        }
    }
    assert(act != seq!['e', 'n', 'd']) by {
        if act == seq!['e', 'n', 'd'] {
            assert(act[0] == 'e');
        }
    }
    assert(s.subrange(0, start) =~= a);
    let mid = match var_of(ctx, name) {
        Some(v) => val_text(v),
        None => Seq::<char>::empty(),
    };
    assert forall|j: int| q <= j < s.len() implies s[j] != '{' by {
        assert(s[j] == b[j - q]);
    }
    lemma_run_plain(ctx, s, q, a + mid);
    assert(s.subrange(q, s.len() as int) =~= b);
    match var_of(ctx, name) {
        Some(v) => {
            assert(step(ctx, s, q, act, Seq::empty(), true, a) == run(ctx, s, q, Seq::empty(), true, a + val_text(v)));
        },
        None => {
            assert(a + mid =~= a);
            assert(step(ctx, s, q, act, Seq::empty(), true, a) == run(ctx, s, q, Seq::empty(), true, a));
        },
    }
}

/// The next action of `s` from `i0` is `a`, written `{{a}}` at `i`.
proof fn lemma_next_action(s: Seq<char>, i0: int, i: int, a: Seq<char>)
    requires
        0 <= i0 <= i,
        i + 4 + a.len() <= s.len(),
        forall|j: int| i0 <= j < i ==> s[j] != '{',
        s.subrange(i, i + 2) == open_delim(),
        s.subrange(i + 2, i + 2 + a.len()) == a,
        free_of(a, '}'),
        s.subrange(i + 2 + a.len(), i + 4 + a.len()) == close_delim(),
    ensures
        find_from(s, open_delim(), i0) == Some(i),
        find_from(s, close_delim(), i + 2) == Some(i + 2 + a.len()),
        s.subrange(i + 2, i + 2 + a.len()) == a,
{
    assert forall|j: int| i0 <= j < i implies !occurs_at(s, open_delim(), j) by {
        if occurs_at(s, open_delim(), j) {
            assert(s.subrange(j, j + 2)[0] == s[j]);
        }
    }
    lemma_find_is(s, open_delim(), i0, i);
    assert forall|j: int| i + 2 <= j < i + 2 + a.len() implies !occurs_at(s, close_delim(), j) by {
        assert(s[j] == a[j - i - 2]) by {
            assert(s.subrange(i + 2, i + 2 + a.len())[j - i - 2] == s[j]);
        }
        if occurs_at(s, close_delim(), j) {
            assert(s.subrange(j, j + 2)[0] == s[j]);
        }
    }
    lemma_find_is(s, close_delim(), i + 2, i + 2 + a.len());
}

/// Rendering from `i0` reaches the action `a` written at `i`.
proof fn lemma_run_reaches(
    ctx: Map<Seq<char>, ValV>,
    s: Seq<char>,
    i0: int,
    i: int,
    a: Seq<char>,
    stack: Seq<Frame>,
    active: bool,
    out: Seq<char>,
)
    requires
        0 <= i0 <= i,
        i + 4 + a.len() <= s.len(),
        forall|j: int| i0 <= j < i ==> s[j] != '{',
        s.subrange(i, i + 2) == open_delim(),
        s.subrange(i + 2, i + 2 + a.len()) == a,
        free_of(a, '}'),
        s.subrange(i + 2 + a.len(), i + 4 + a.len()) == close_delim(),
    ensures
        run(ctx, s, i0, stack, active, out) == step(
            ctx,
            s,
            i + 4 + a.len(),
            trim(a),
            stack,
            active,
            if active {
                out + s.subrange(i0, i)
            } else {
                out
            },
        ),
{
    lemma_next_action(s, i0, i, a);
}

/// `{{if .c}}t{{else}}e{{end}}` renders as `t` when `c` is bound to a truthy value
/// (compared case-insensitively), and as `e` otherwise.
#[verifier::rlimit(40)]
pub proof fn law_render_if_else(
    c: Seq<char>,
    t: Seq<char>,
    e: Seq<char>,
    ctx: Map<Seq<char>, ValV>,
)
    requires
        free_of(c, '{'),
        free_of(c, '}'),
        c.len() > 0,
        !is_ws(c[0]),
        !is_ws(c.last()),
        free_of(t, '{'),
        free_of(e, '{'),
    ensures
        render_spec("{{if ."@ + c + "}}"@ + t + "{{else}}"@ + e + "{{end}}"@, ctx) == Ok::<
            Seq<char>,
            RenderError,
        >(
            if (match var_of(ctx, c) {
                Some(v) => val_truthy(v),
                None => false,
            }) {
                t
            } else {
                e
            },
        ),
{
    reveal_strlit("{{if .");
    reveal_strlit("}}");
    reveal_strlit("{{else}}");
    reveal_strlit("{{end}}");
    let s = "{{if ."@ + c + "}}"@ + t + "{{else}}"@ + e + "{{end}}"@;
    let a1 = seq!['i', 'f', ' ', '.'] + c;
    let a2 = seq!['e', 'l', 's', 'e'];
    let a3 = seq!['e', 'n', 'd'];
    let n1: int = a1.len() as int;
    let q1: int = n1 + 4;
    let i2: int = q1 + t.len();
    let q2: int = i2 + 8;
    let i3: int = q2 + e.len();
    let b = match var_of(ctx, c) {
        Some(v) => val_truthy(v),
        None => false,
    };
    let st1 = Seq::<Frame>::empty().push((b, false, true));
    let out1 = if b { Seq::<char>::empty() + t } else { Seq::<char>::empty() };
    let st2 = st1.drop_last().push((!b, true, true));
    let out2 = if !b { out1 + e } else { out1 };
    assert(s.len() == i3 + 7);
    assert(render_spec(s, ctx) == step(ctx, s, q1, a1, Seq::empty(), true, Seq::empty())) by {
        assert(s.subrange(0, 2) =~= open_delim());
        assert(s.subrange(2, 2 + n1) =~= a1);
        assert(s.subrange(2 + n1, 4 + n1) =~= close_delim());
        assert forall|j: int| 0 <= j < a1.len() implies a1[j] != '}' by {
            if j >= 4 {
                assert(a1[j] == c[j - 4]);
            }
        }
        lemma_run_reaches(ctx, s, 0, 0, a1, Seq::empty(), true, Seq::empty());
        assert(trim_start(a1) == a1);
        assert(a1.last() == c.last());
        assert(trim_end(a1) == a1);
        assert(Seq::<char>::empty() + s.subrange(0, 0) =~= Seq::<char>::empty());
    }
    assert(step(ctx, s, q1, a1, Seq::empty(), true, Seq::empty()) == run(ctx, s, q1, st1, b, Seq::empty())) by {
        assert(starts_with(a1, if_kw())) by {
            assert(a1.subrange(0, 3) =~= if_kw());
        }
        let cond = a1.subrange(3, a1.len() as int);
        assert(cond =~= seq!['.'] + c);
        assert(trim_start(cond) == cond);
        assert(cond.last() == c.last());
        assert(trim_end(cond) == cond);
        assert(strip_prefix(cond, seq!['.']) == Some(c)) by {
            assert(cond.subrange(0, 1) =~= seq!['.']);
            assert(cond.subrange(1, cond.len() as int) =~= c);
        }
        assert(trim_start(c) == c);
        assert(trim_end(c) == c);
        assert(var_name(trim(cond)) == c);
    }
    assert(run(ctx, s, q1, st1, b, Seq::empty()) == step(ctx, s, q2, a2, st1, b, out1)) by {
        assert forall|j: int| q1 <= j < i2 implies s[j] != '{' by {
            assert(s[j] == t[j - q1]);
        }
        assert(s.subrange(i2, i2 + 2) =~= open_delim());
        assert(s.subrange(i2 + 2, i2 + 6) =~= a2);
        assert(s.subrange(i2 + 6, i2 + 8) =~= close_delim());
        lemma_run_reaches(ctx, s, q1, i2, a2, st1, b, Seq::empty());
        assert(trim(a2) == a2);
        assert(s.subrange(q1, i2) =~= t);
    }
    assert(step(ctx, s, q2, a2, st1, b, out1) == run(ctx, s, q2, st2, !b, out1)) by {
        assert(!starts_with(a2, if_kw())) by {
            if starts_with(a2, if_kw()) {
                assert(a2.subrange(0, 3)[0] == a2[0]);
            }
        }
    }
    assert(run(ctx, s, q2, st2, !b, out1) == step(ctx, s, i3 + 7, a3, st2, !b, out2)) by {
        assert forall|j: int| q2 <= j < i3 implies s[j] != '{' by {
            assert(s[j] == e[j - q2]);
        }
        assert(s.subrange(i3, i3 + 2) =~= open_delim());
        assert(s.subrange(i3 + 2, i3 + 5) =~= a3);
        assert(s.subrange(i3 + 5, i3 + 7) =~= close_delim());
        lemma_run_reaches(ctx, s, q2, i3, a3, st2, !b, out1);
        assert(trim(a3) == a3);
        assert(s.subrange(q2, i3) =~= e);
    }
    assert(step(ctx, s, i3 + 7, a3, st2, !b, out2) == run(ctx, s, i3 + 7, Seq::empty(), true, out2)) by {
        assert(!starts_with(a3, if_kw())) by {
            if starts_with(a3, if_kw()) {
                assert(a3.subrange(0, 3)[0] == a3[0]);
            }
        }
        assert(a3 != seq!['e', 'l', 's', 'e']);
        assert(st2.drop_last() =~= Seq::<Frame>::empty());
    }
    assert(run(ctx, s, i3 + 7, Seq::empty(), true, out2) == Ok::<Seq<char>, RenderError>(out2));
    if b {
        assert(out2 =~= t);
    } else {
        assert(out2 =~= e);
    }
}

/// The action `if .c` opens a frame whose branch is active exactly when the text
/// around it is active and `c` holds.
proof fn lemma_if_step(
    ctx: Map<Seq<char>, ValV>,
    s: Seq<char>,
    q: int,
    c: Seq<char>,
    stack: Seq<Frame>,
    active: bool,
    out: Seq<char>,
)
    requires
        0 <= q <= s.len(),
        c.len() > 0,
        !is_ws(c[0]),
        !is_ws(c.last()),
    ensures
        trim(seq!['i', 'f', ' ', '.'] + c) == seq!['i', 'f', ' ', '.'] + c,
        step(ctx, s, q, seq!['i', 'f', ' ', '.'] + c, stack, active, out) == run(
            ctx,
            s,
            q,
            stack.push(
                (
                    active && match var_of(ctx, c) {
                        Some(v) => val_truthy(v),
                        None => false,
                    },
                    false,
                    active,
                ),
            ),
            active && match var_of(ctx, c) {
                Some(v) => val_truthy(v),
                None => false,
            },
            out,
        ),
{
    let a1 = seq!['i', 'f', ' ', '.'] + c;
    assert(trim_start(a1) == a1);
    assert(a1.last() == c.last());
    assert(trim_end(a1) == a1);
    assert(starts_with(a1, if_kw())) by {
        assert(a1.subrange(0, 3) =~= if_kw());
    }
    let cond = a1.subrange(3, a1.len() as int);
    assert(cond =~= seq!['.'] + c);
    assert(trim_start(cond) == cond);
    assert(cond.last() == c.last());
    assert(trim_end(cond) == cond);
    assert(strip_prefix(cond, seq!['.']) == Some(c)) by {
        assert(cond.subrange(0, 1) =~= seq!['.']);
        assert(cond.subrange(1, cond.len() as int) =~= c);
    }
    assert(trim_start(c) == c);
    assert(trim_end(c) == c);
    assert(var_name(trim(cond)) == c);
}

/// Text inside a false `{{if}}` is never emitted, not even the `{{else}}` branch
/// of an `{{if}}` nested in it: when `c` does not hold, the whole block
/// `{{if .c}}x{{if .d}}y{{else}}z{{end}}w{{end}}` renders as nothing, whatever `d`.
#[verifier::rlimit(80)]
pub proof fn law_render_false_if_hides_nested(
    c: Seq<char>,
    d: Seq<char>,
    x: Seq<char>,
    y: Seq<char>,
    z: Seq<char>,
    w: Seq<char>,
    ctx: Map<Seq<char>, ValV>,
)
    requires
        free_of(c, '{'),
        free_of(c, '}'),
        c.len() > 0,
        !is_ws(c[0]),
        !is_ws(c.last()),
        free_of(d, '{'),
        free_of(d, '}'),
        d.len() > 0,
        !is_ws(d[0]),
        !is_ws(d.last()),
        free_of(x, '{'),
        free_of(y, '{'),
        free_of(z, '{'),
        free_of(w, '{'),
        !match var_of(ctx, c) {
            Some(v) => val_truthy(v),
            None => false,
        },
    ensures
        render_spec(
            "{{if ."@ + c + "}}"@ + x + "{{if ."@ + d + "}}"@ + y + "{{else}}"@ + z + "{{end}}"@ + w
                + "{{end}}"@,
            ctx,
        ) == Ok::<Seq<char>, RenderError>(Seq::empty()),
{
    reveal_strlit("{{if .");
    reveal_strlit("}}");
    reveal_strlit("{{else}}");
    reveal_strlit("{{end}}");
    let s = "{{if ."@ + c + "}}"@ + x + "{{if ."@ + d + "}}"@ + y + "{{else}}"@ + z + "{{end}}"@ + w
        + "{{end}}"@;
    let e: Seq<char> = Seq::empty();
    let a1 = seq!['i', 'f', ' ', '.'] + c;
    let a2 = seq!['i', 'f', ' ', '.'] + d;
    let ae = seq!['e', 'l', 's', 'e'];
    let an = seq!['e', 'n', 'd'];
    let n1: int = a1.len() as int;
    let n2: int = a2.len() as int;
    let q1: int = n1 + 4;
    let i2: int = q1 + x.len();
    let q2: int = i2 + n2 + 4;
    let i3: int = q2 + y.len();
    let q3: int = i3 + 8;
    let i4: int = q3 + z.len();
    let q4: int = i4 + 7;
    let i5: int = q4 + w.len();
    assert(s.len() == i5 + 7);
    let st1 = Seq::<Frame>::empty().push((false, false, true));
    let st2 = st1.push((false, false, false));
    let st3 = st1.push((false, true, false));
    assert forall|j: int| 0 <= j < a1.len() implies a1[j] != '}' by {
        if j >= 4 {
            assert(a1[j] == c[j - 4]);
        }
    }
    assert forall|j: int| 0 <= j < a2.len() implies a2[j] != '}' by {
        if j >= 4 {
            assert(a2[j] == d[j - 4]);
        }
    }
    // {{if .c}}: the outer frame is inactive.
    assert(render_spec(s, ctx) == run(ctx, s, q1, st1, false, e)) by {
        assert(s.subrange(0, 2) =~= open_delim());
        assert(s.subrange(2, 2 + n1) =~= a1);
        assert(s.subrange(2 + n1, 4 + n1) =~= close_delim());
        lemma_run_reaches(ctx, s, 0, 0, a1, Seq::empty(), true, e);
        assert(e + s.subrange(0, 0) =~= e);
        lemma_if_step(ctx, s, q1, c, Seq::empty(), true, e);
    }
    // {{if .d}} inside it: inactive too.
    assert(run(ctx, s, q1, st1, false, e) == run(ctx, s, q2, st2, false, e)) by {
        assert forall|j: int| q1 <= j < i2 implies s[j] != '{' by {
            assert(s[j] == x[j - q1]);
        }
        assert(s.subrange(i2, i2 + 2) =~= open_delim());
        assert(s.subrange(i2 + 2, i2 + 2 + n2) =~= a2);
        assert(s.subrange(i2 + 2 + n2, i2 + 4 + n2) =~= close_delim());
        lemma_run_reaches(ctx, s, q1, i2, a2, st1, false, e);
        lemma_if_step(ctx, s, q2, d, st1, false, e);
    }
    // {{else}}: its branch stays inactive, since the enclosing text is.
    assert(run(ctx, s, q2, st2, false, e) == run(ctx, s, q3, st3, false, e)) by {
        assert forall|j: int| q2 <= j < i3 implies s[j] != '{' by {
            assert(s[j] == y[j - q2]);
        }
        assert(s.subrange(i3, i3 + 2) =~= open_delim());
        assert(s.subrange(i3 + 2, i3 + 6) =~= ae);
        assert(s.subrange(i3 + 6, i3 + 8) =~= close_delim());
        lemma_run_reaches(ctx, s, q2, i3, ae, st2, false, e);
        assert(trim(ae) == ae);
        assert(!starts_with(ae, if_kw())) by {
            if starts_with(ae, if_kw()) {
                assert(ae.subrange(0, 3)[0] == ae[0]);
            }
        }
        assert(st2.drop_last().push((false, true, false)) =~= st3);
    }
    // the inner {{end}}: back in the inactive outer frame.
    assert(run(ctx, s, q3, st3, false, e) == run(ctx, s, q4, st1, false, e)) by {
        assert forall|j: int| q3 <= j < i4 implies s[j] != '{' by {
            assert(s[j] == z[j - q3]);
        }
        assert(s.subrange(i4, i4 + 2) =~= open_delim());
        assert(s.subrange(i4 + 2, i4 + 5) =~= an);
        assert(s.subrange(i4 + 5, i4 + 7) =~= close_delim());
        lemma_run_reaches(ctx, s, q3, i4, an, st3, false, e);
        assert(trim(an) == an);
        assert(!starts_with(an, if_kw())) by {
            if starts_with(an, if_kw()) {
                assert(an.subrange(0, 3)[0] == an[0]);
            }
        }
        assert(an != ae);
        assert(st3.drop_last() =~= st1);
    }
    // the outer {{end}}: active again, with nothing emitted.
    assert(run(ctx, s, q4, st1, false, e) == run(ctx, s, i5 + 7, Seq::empty(), true, e)) by {
        assert forall|j: int| q4 <= j < i5 implies s[j] != '{' by {
            assert(s[j] == w[j - q4]);
        }
        assert(s.subrange(i5, i5 + 2) =~= open_delim());
        assert(s.subrange(i5 + 2, i5 + 5) =~= an);
        assert(s.subrange(i5 + 5, i5 + 7) =~= close_delim());
        lemma_run_reaches(ctx, s, q4, i5, an, st1, false, e);
        assert(trim(an) == an);
        assert(!starts_with(an, if_kw())) by {
            if starts_with(an, if_kw()) {
                assert(an.subrange(0, 3)[0] == an[0]);
            }
        }
        assert(an != ae);
        assert(st1.drop_last() =~= Seq::<Frame>::empty());
    }
}

/// A binding made with `set_str` is what a later lookup of the same key, in any
/// letter case, finds.
pub proof fn law_context_set_get(
    vars: Map<Seq<char>, ValV>,
    key: Seq<char>,
    other: Seq<char>,
    val: Seq<char>,
)
    requires
        lower(other) == lower(key),
    ensures
        var_of(vars.insert(lower(key), ValV::Str(val)), other) == Some(ValV::Str(val)),
{
}

} // verus!
