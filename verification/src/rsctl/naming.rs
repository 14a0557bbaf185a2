//! Text transformations of the generator: naming styles, paths, indentation,
//! Go-style struct tags and type names.
use vstd::prelude::*;
use crate::text::{
    chars_of, chars_of_string, concat, decimal, decimal_i64, eq_chars, eq_str, extend, extend_str,
    is_digit, is_upper, is_lower, lower, lower_exec, slice, starts_with, starts_with_str,
    string_of, trim, trim_exec, is_ws, trim_start, trim_end,
};

verus! {

// ---------------------------------------------------------------------------
// Unicode case mapping (std)
// ---------------------------------------------------------------------------

/// `char::to_uppercase` (Unicode; one character may map to several).
pub uninterp spec fn char_upper(c: char) -> Seq<char>;

/// `char::to_lowercase` (Unicode; one character may map to several).
pub uninterp spec fn char_lower(c: char) -> Seq<char>;

/// `char::to_uppercase`, collected. On ASCII it agrees with `to_ascii_uppercase`.
#[verifier::external_body]
fn upper_of(c: char) -> (r: Vec<char>)
    ensures
        r@ == char_upper(c),
        (c as u32) < 128 ==> r@ == seq![crate::text::upper_char(c)],
{
    c.to_uppercase().collect()
}

/// `char::to_lowercase`, collected. On ASCII it agrees with `to_ascii_lowercase`.
#[verifier::external_body]
fn lower_of(c: char) -> (r: Vec<char>)
    ensures
        r@ == char_lower(c),
        (c as u32) < 128 ==> r@ == seq![crate::text::lower_char(c)],
{
    c.to_lowercase().collect()
}

// ---------------------------------------------------------------------------
// snake / pascal / styles
// ---------------------------------------------------------------------------

/// Module-style name: trimmed and ASCII-lowercased.
pub open spec fn snake_spec(s: Seq<char>) -> Seq<char> {
    lower(trim(s))
}

proof fn lemma_trim_ends(s: Seq<char>)
    ensures
        trim(s).len() > 0 ==> !is_ws(trim(s)[0]) && !is_ws(trim(s).last()),
{
    crate::text::lemma_trim_start_suffix(s);
    let x = trim_start(s);
    crate::text::lemma_trim_end_prefix(x);
    if trim(s).len() > 0 {
        let k = choose|k: int|
            0 <= k <= x.len() && trim_end(x) == x.subrange(0, k) && forall|j: int|
                k <= j < x.len() ==> is_ws(#[trigger] x[j]);
        assert(trim(s)[0] == x[0]);
    }
}

/// Normalising a module name twice changes nothing more than once.
pub proof fn law_snake_idempotent(s: Seq<char>)
    ensures
        snake_spec(snake_spec(s)) == snake_spec(s),
{
    let t = trim(s);
    let u = lower(t);
    lemma_trim_ends(s);
    assert forall|i: int| 0 <= i < u.len() implies is_ws(#[trigger] u[i]) == is_ws(t[i]) by {
        assert(u[i] == crate::text::lower_char(t[i]));
    }
    if u.len() > 0 {
        assert(is_ws(u[0]) == is_ws(t[0]));
        assert(is_ws(u.last()) == is_ws(t.last())) by {
            assert(u.last() == u[u.len() - 1]);
            assert(t.last() == t[t.len() - 1]);
        }
    }
    crate::text::lemma_trim_noop(u);
    assert(lower(u) =~= u) by {
        assert forall|i: int| 0 <= i < u.len() implies #[trigger] lower(u)[i] == u[i] by {
            assert(u[i] == crate::text::lower_char(t[i]));
        }
    }
}

pub fn snake(s: &str) -> (r: String)
    ensures
        r@ == snake_spec(s@),
{
    let v = chars_of(s);
    string_of(&snake_chars(&v))
}

pub fn snake_chars(v: &Vec<char>) -> (r: Vec<char>)
    ensures
        r@ == snake_spec(v@),
{
    let t = trim_exec(v);
    lower_exec(&t)
}

/// The service name the generator uses for a `service` name.
pub fn service_name_from_input(service_name: &str) -> (r: String)
    ensures
        r@ == snake_spec(service_name@),
{
    snake(service_name)
}

/// PascalCase: `_` and `-` are dropped and the character after them (and the
/// first one) is uppercased.
pub open spec fn pascal_from(s: Seq<char>, upper: bool) -> Seq<char>
    decreases s.len(),
{
    if s.len() == 0 {
        Seq::empty()
    } else if s[0] == '_' || s[0] == '-' {
        pascal_from(s.drop_first(), true)
    } else if upper {
        char_upper(s[0]) + pascal_from(s.drop_first(), false)
    } else {
        seq![s[0]] + pascal_from(s.drop_first(), false)
    }
}

pub open spec fn pascal_spec(s: Seq<char>) -> Seq<char> {
    pascal_from(s, true)
}

pub fn pascal_chars(s: &Vec<char>) -> (r: Vec<char>)
    ensures
        r@ == pascal_spec(s@),
{
    let mut out: Vec<char> = Vec::new();
    let mut upper = true;
    let mut i: usize = 0;
    assert(s@.subrange(0, s.len() as int) == s@);
    while i < s.len()
        invariant
            i <= s.len(),
            out@ + pascal_from(s@.subrange(i as int, s.len() as int), upper) == pascal_spec(s@),
        decreases s.len() - i,
    {
        let ghost rest = s@.subrange(i as int, s.len() as int);
        assert(rest.drop_first() == s@.subrange(i + 1, s.len() as int));
        let ch = s[i];
        if ch == '_' || ch == '-' {
            upper = true;
        } else if upper {
            let u = upper_of(ch);
            let ghost o0 = out@;
            extend(&mut out, &u);
            assert(out@ + pascal_from(rest.drop_first(), false) == o0 + (char_upper(ch)
                + pascal_from(rest.drop_first(), false)));
            upper = false;
        } else {
            let ghost o0 = out@;
            out.push(ch);
            assert(out@ + pascal_from(rest.drop_first(), false) == o0 + (seq![ch] + pascal_from(
                rest.drop_first(),
                false,
            )));
        }
        i = i + 1;
    }
    out
}

pub fn pascal(s: &str) -> (r: String)
    ensures
        r@ == pascal_spec(s@),
{
    let v = chars_of(s);
    string_of(&pascal_chars(&v))
}

/// lowerCamelCase from snake_case: PascalCase with its first character lowercased.
pub open spec fn lower_camel_spec(s: Seq<char>) -> Seq<char> {
    let p = pascal_spec(s);
    if p.len() == 0 {
        p
    } else {
        char_lower(p[0]) + p.drop_first()
    }
}

pub fn lower_camel_chars(s: &Vec<char>) -> (r: Vec<char>)
    ensures
        r@ == lower_camel_spec(s@),
{
    let p = pascal_chars(s);
    if p.len() == 0 {
        return p;
    }
    let mut r = lower_of(p[0]);
    let rest = slice(&p, 1, p.len());
    assert(rest@ == p@.drop_first());
    extend(&mut r, &rest);
    r
}

pub fn lower_camel_from_snake(s: &str) -> (r: String)
    ensures
        r@ == lower_camel_spec(s@),
{
    let v = chars_of(s);
    string_of(&lower_camel_chars(&v))
}

/// File naming style of generated `.rs` files.
#[derive(Debug, Clone, Copy, PartialEq, Eq, Structural)]
pub enum Style {
    /// `rust_zero`
    Snake,
    /// `rustZero`
    LowerCamel,
    /// `RustZero`
    UpperCamel,
}

pub open spec fn style_spec(s: Seq<char>) -> Option<Style> {
    if s == "rust_zero"@ {
        Some(Style::Snake)
    } else if s == "rustZero"@ {
        Some(Style::LowerCamel)
    } else if s == "RustZero"@ {
        Some(Style::UpperCamel)
    } else {
        None
    }
}

/// The style a `--style` value names; any other value is refused with the message
/// `unsupported style: <value> (expected rust_zero|rustZero|RustZero)`.
pub fn parse_style(style: &str) -> (r: Result<Style, String>)
    ensures
        match r {
            Ok(st) => style_spec(style@) == Some(st),
            Err(m) => style_spec(style@) is None && m@ == "unsupported style: "@ + style@
                + " (expected rust_zero|rustZero|RustZero)"@,
        },
{
    let v = chars_of(style);
    if eq_str(&v, "rust_zero") {
        Ok(Style::Snake)
    } else if eq_str(&v, "rustZero") {
        Ok(Style::LowerCamel)
    } else if eq_str(&v, "RustZero") {
        Ok(Style::UpperCamel)
    } else {
        let mut m = chars_of("unsupported style: ");
        extend(&mut m, &v);
        extend_str(&mut m, " (expected rust_zero|rustZero|RustZero)");
        Err(string_of(&m))
    }
}

/// The file name (without `.rs`) of a group module in a naming style.
pub open spec fn group_file_base_spec(g: Seq<char>, style: Style) -> Seq<char> {
    match style {
        Style::Snake => g,
        Style::LowerCamel => lower_camel_spec(g),
        Style::UpperCamel => pascal_spec(g),
    }
}

pub fn group_file_base_chars(g: &Vec<char>, style: Style) -> (r: Vec<char>)
    ensures
        r@ == group_file_base_spec(g@, style),
{
    match style {
        Style::Snake => g.clone(),
        Style::LowerCamel => lower_camel_chars(g),
        Style::UpperCamel => pascal_chars(g),
    }
}

pub fn group_file_base(group_snake: &str, style: Style) -> (r: String)
    ensures
        r@ == group_file_base_spec(group_snake@, style),
{
    let v = chars_of(group_snake);
    string_of(&group_file_base_chars(&v, style))
}

/// `pub mod <module>;`, preceded by a `#[path]` attribute when the file name differs.
pub open spec fn mod_decl_spec(parent: Seq<char>, module: Seq<char>, file_base: Seq<char>) -> Seq<
    char,
> {
    if module == file_base {
        "pub mod "@ + module + ";\n"@
    } else {
        "#[path = \""@ + parent + "/"@ + file_base + ".rs\"]\npub mod "@ + module + ";\n"@
    }
}

pub fn mod_decl_chars(parent: &str, module: &Vec<char>, file_base: &Vec<char>) -> (r: Vec<char>)
    ensures
        r@ == mod_decl_spec(parent@, module@, file_base@),
{
    if eq_chars(module, file_base) {
        let mut r = chars_of("pub mod ");
        extend(&mut r, module);
        extend_str(&mut r, ";\n");
        r
    } else {
        let mut r = chars_of("#[path = \"");
        extend_str(&mut r, parent);
        extend_str(&mut r, "/");
        extend(&mut r, file_base);
        extend_str(&mut r, ".rs\"]\npub mod ");
        extend(&mut r, module);
        extend_str(&mut r, ";\n");
        r
    }
}

pub fn mod_decl_with_path(parent_dir: &str, module: &str, file_base: &str) -> (r: String)
    ensures
        r@ == mod_decl_spec(parent_dir@, module@, file_base@),
{
    let m = chars_of(module);
    let f = chars_of(file_base);
    string_of(&mod_decl_chars(parent_dir, &m, &f))
}

// ---------------------------------------------------------------------------
// Paths
// ---------------------------------------------------------------------------

/// `s` without all its trailing `/`.
pub open spec fn trim_end_slashes(s: Seq<char>) -> Seq<char>
    decreases s.len(),
{
    if s.len() > 0 && s.last() == '/' {
        trim_end_slashes(s.drop_last())
    } else {
        s
    }
}

/// A route's full path under a group prefix.
pub open spec fn join_paths_spec(prefix: Seq<char>, path: Seq<char>) -> Seq<char> {
    let pfx = trim_end_slashes(prefix);
    let p = if starts_with(path, "/"@) {
        path
    } else {
        seq!['/'] + path
    };
    if pfx.len() == 0 {
        p
    } else if p == seq!['/'] {
        pfx
    } else {
        pfx + p
    }
}

pub fn join_paths_chars(prefix: &Vec<char>, path: &Vec<char>) -> (r: Vec<char>)
    ensures
        r@ == join_paths_spec(prefix@, path@),
{
    let mut n = prefix.len();
    assert(prefix@.subrange(0, prefix.len() as int) == prefix@);
    while n > 0 && prefix[n - 1] == '/'
        invariant
            n <= prefix.len(),
            trim_end_slashes(prefix@) == trim_end_slashes(prefix@.subrange(0, n as int)),
        decreases n,
    {
        assert(prefix@.subrange(0, n as int).drop_last() == prefix@.subrange(0, n - 1));
        n = n - 1;
    }
    assert(trim_end_slashes(prefix@.subrange(0, n as int)) == prefix@.subrange(0, n as int));
    proof {
        reveal_strlit("/");
    }
    let pfx = slice(prefix, 0, n);
    let p = if starts_with_str(path, "/") {
        path.clone()
    } else {
        let mut p = chars_of("/");
        extend(&mut p, path);
        p
    };
    if pfx.len() == 0 {
        return p;
    }
    if p.len() == 1 && p[0] == '/' {
        assert(p@ == seq!['/']);
        return pfx;
    }
    concat(&pfx, &p)
}

pub fn join_paths(prefix: &str, path: &str) -> (r: String)
    ensures
        r@ == join_paths_spec(prefix@, path@),
{
    let a = chars_of(prefix);
    let b = chars_of(path);
    string_of(&join_paths_chars(&a, &b))
}

/// `base` joined with the relative segment `seg` (Unix paths).
pub open spec fn path_join_spec(base: Seq<char>, seg: Seq<char>) -> Seq<char> {
    if base.len() == 0 {
        seg
    } else if base.last() == '/' {
        base + seg
    } else {
        base + seq!['/'] + seg
    }
}

pub fn path_join(base: &Vec<char>, seg: &str) -> (r: Vec<char>)
    ensures
        r@ == path_join_spec(base@, seg@),
{
    if base.len() == 0 {
        return chars_of(seg);
    }
    let mut r = base.clone();
    if base[base.len() - 1] != '/' {
        r.push('/');
    }
    extend_str(&mut r, seg);
    r
}

/// The template directory under a template root: `<root>/api/rs`.
pub fn template_dir(template_root: &str) -> (r: String)
    ensures
        r@ == path_join_spec(path_join_spec(template_root@, "api"@), "rs"@),
{
    let root = chars_of(template_root);
    let a = path_join(&root, "api");
    string_of(&path_join(&a, "rs"))
}

// ---------------------------------------------------------------------------
// Indentation
// ---------------------------------------------------------------------------

/// The pieces of `s` between its `c` characters (`str::split(c)`).
pub open spec fn segments(s: Seq<char>, c: char) -> Seq<Seq<char>>
    decreases s.len(),
{
    if s.len() == 0 {
        seq![Seq::empty()]
    } else {
        let segs = segments(s.drop_last(), c);
        if s.last() == c {
            segs.push(Seq::empty())
        } else {
            segs.update(segs.len() - 1, segs.last().push(s.last()))
        }
    }
}

pub proof fn lemma_segments_nonempty(s: Seq<char>, c: char)
    ensures
        segments(s, c).len() >= 1,
    decreases s.len(),
{
    if s.len() > 0 {
        lemma_segments_nonempty(s.drop_last(), c);
    }
}

/// `str::split(c)`, collected.
pub fn split_chars(s: &Vec<char>, c: char) -> (r: Vec<Vec<char>>)
    ensures
        r@.len() == segments(s@, c).len(),
        forall|i: int| 0 <= i < r@.len() ==> (#[trigger] r@[i])@ == segments(s@, c)[i],
{
    let mut r: Vec<Vec<char>> = Vec::new();
    let mut cur: Vec<char> = Vec::new();
    let mut i: usize = 0;
    while i < s.len()
        invariant
            i <= s.len(),
            r@.len() + 1 == segments(s@.subrange(0, i as int), c).len(),
            forall|k: int|
                0 <= k < r@.len() ==> (#[trigger] r@[k])@ == segments(
                    s@.subrange(0, i as int),
                    c,
                )[k],
            cur@ == segments(s@.subrange(0, i as int), c).last(),
        decreases s.len() - i,
    {
        proof {
            lemma_segments_nonempty(s@.subrange(0, i as int), c);
        }
        assert(s@.subrange(0, i + 1).drop_last() == s@.subrange(0, i as int));
        if s[i] == c {
            r.push(cur);
            cur = Vec::new();
        } else {
            cur.push(s[i]);
        }
        i = i + 1;
    }
    assert(s@.subrange(0, s.len() as int) == s@);
    proof {
        lemma_segments_nonempty(s@, c);
    }
    r.push(cur);
    r
}

/// `l` without one trailing `\r`.
pub open spec fn strip_cr(l: Seq<char>) -> Seq<char> {
    if l.len() > 0 && l.last() == '\r' {
        l.drop_last()
    } else {
        l
    }
}

/// `str::lines`: split at `\n` (a `\r` before it is dropped); a final line ending
/// adds no empty line.
pub open spec fn lines_spec(s: Seq<char>) -> Seq<Seq<char>> {
    let segs = segments(s, '\n');
    let n = segs.len();
    let init = Seq::new((n - 1) as nat, |i: int| strip_cr(segs[i]));
    if segs.last().len() == 0 {
        init
    } else {
        init.push(segs.last())
    }
}

/// `n` spaces.
pub open spec fn spaces(n: nat) -> Seq<char> {
    Seq::new(n, |i: int| ' ')
}

/// `parts` joined with `sep` between them.
pub open spec fn join(parts: Seq<Seq<char>>, sep: Seq<char>) -> Seq<char>
    decreases parts.len(),
{
    if parts.len() == 0 {
        Seq::empty()
    } else if parts.len() == 1 {
        parts[0]
    } else {
        join(parts.drop_last(), sep) + sep + parts.last()
    }
}

/// Each non-blank line indented by `n` spaces, blank lines emptied, joined by `\n`
/// and ended with `\n`.
pub open spec fn indent_spec(s: Seq<char>, n: nat) -> Seq<char> {
    let ls = lines_spec(s);
    join(
        Seq::new(
            ls.len(),
            |i: int|
                if trim(ls[i]).len() == 0 {
                    Seq::empty()
                } else {
                    spaces(n) + ls[i]
                },
        ),
        seq!['\n'],
    ) + seq!['\n']
}

pub fn indent_block(s: &str, spaces_n: usize) -> (r: String)
    ensures
        r@ == indent_spec(s@, spaces_n as nat),
{
    let v = chars_of(s);
    let segs = split_chars(&v, '\n');
    let ghost ls = lines_spec(v@);
    let ghost sg = segments(v@, '\n');
    proof {
        lemma_segments_nonempty(v@, '\n');
    }
    let n = segs.len();
    let mut lines: Vec<Vec<char>> = Vec::new();
    let mut i: usize = 0;
    while i + 1 < n
        invariant
            n == segs@.len(),
            n == sg.len(),
            n >= 1,
            i + 1 <= n,
            sg == segments(v@, '\n'),
            forall|k: int| 0 <= k < n ==> (#[trigger] segs@[k])@ == sg[k],
            lines@.len() == i,
            forall|k: int| 0 <= k < i ==> (#[trigger] lines@[k])@ == strip_cr(sg[k]),
        decreases n - i,
    {
        let seg = &segs[i];
        if seg.len() > 0 && seg[seg.len() - 1] == '\r' {
            let t = slice(seg, 0, seg.len() - 1);
            assert(t@ == seg@.drop_last());
            lines.push(t);
        } else {
            lines.push(seg.clone());
        }
        i = i + 1;
    }
    if segs[n - 1].len() > 0 {
        lines.push(segs[n - 1].clone());
    }
    assert(lines@.len() == ls.len());
    assert(forall|k: int| 0 <= k < ls.len() ==> (#[trigger] lines@[k])@ == ls[k]);
    let mut pad: Vec<char> = Vec::new();
    let mut j: usize = 0;
    while j < spaces_n
        invariant
            j <= spaces_n,
            pad@ == spaces(j as nat),
        decreases spaces_n - j,
    {
        pad.push(' ');
        j = j + 1;
        assert(pad@ == spaces(j as nat));
    }
    let ghost mapped = Seq::new(
        ls.len(),
        |k: int|
            if trim(ls[k]).len() == 0 {
                Seq::empty()
            } else {
                spaces(spaces_n as nat) + ls[k]
            },
    );
    let mut out: Vec<char> = Vec::new();
    let mut k: usize = 0;
    while k < lines.len()
        invariant
            k <= lines@.len(),
            lines@.len() == ls.len(),
            forall|q: int| 0 <= q < ls.len() ==> (#[trigger] lines@[q])@ == ls[q],
            pad@ == spaces(spaces_n as nat),
            mapped.len() == ls.len(),
            forall|q: int|
                0 <= q < ls.len() ==> #[trigger] mapped[q] == if trim(ls[q]).len() == 0 {
                    Seq::empty()
                } else {
                    spaces(spaces_n as nat) + ls[q]
                },
            out@ == join(mapped.subrange(0, k as int), seq!['\n']),
        decreases lines@.len() - k,
    {
        let ghost o0 = out@;
        if k > 0 {
            out.push('\n');
        }
        let t = trim_exec(&lines[k]);
        if t.len() > 0 {
            extend(&mut out, &pad);
            extend(&mut out, &lines[k]);
        }
        assert(mapped.subrange(0, k + 1).drop_last() == mapped.subrange(0, k as int));
        if k == 0 {
            assert(out@ == mapped[0]);
        } else {
            assert(out@ == o0 + seq!['\n'] + mapped[k as int]);
        }
        k = k + 1;
    }
    assert(mapped.subrange(0, lines@.len() as int) == mapped);
    out.push('\n');
    string_of(&out)
}

// ---------------------------------------------------------------------------
// Go struct tags
// ---------------------------------------------------------------------------

pub open spec fn is_tag_sep(c: char) -> bool {
    c == ' ' || c == ',' || c == '\t'
}

/// The position after the separators at `i`.
pub open spec fn skip_tag_seps(s: Seq<char>, i: int) -> int
    decreases s.len() - i,
{
    if 0 <= i < s.len() && is_tag_sep(s[i]) {
        skip_tag_seps(s, i + 1)
    } else {
        i
    }
}

/// The end of the run of ASCII alphanumerics at `i`.
pub open spec fn alnum_run(s: Seq<char>, i: int) -> int
    decreases s.len() - i,
{
    if 0 <= i < s.len() && crate::text::is_alnum(s[i]) {
        alnum_run(s, i + 1)
    } else {
        i
    }
}

/// The position of the first `"` at or after `i` (or the end).
pub open spec fn quote_at(s: Seq<char>, i: int) -> int
    decreases s.len() - i,
{
    if 0 <= i < s.len() && s[i] != '"' {
        quote_at(s, i + 1)
    } else {
        i
    }
}

/// The `key:"value"` pairs of a struct tag from position `i`, in order; scanning
/// stops at the first malformed pair.
pub open spec fn tag_pairs(s: Seq<char>, i: int) -> Seq<(Seq<char>, Seq<char>)>
    decreases s.len() - i,
{
    if i < 0 || i >= s.len() {
        Seq::empty()
    } else {
        let start = skip_tag_seps(s, i);
        let e = alnum_run(s, start);
        if e == start || e >= s.len() || s[e] != ':' || e + 1 >= s.len() || s[e + 1] != '"' {
            Seq::empty()
        } else {
            let ve = quote_at(s, e + 2);
            if ve >= s.len() || ve < i {
                Seq::empty()
            } else {
                seq![(s.subrange(start, e), s.subrange(e + 2, ve))] + tag_pairs(s, ve + 1)
            }
        }
    }
}

/// The value of `key` among pairs: the last one wins (map insertion).
pub open spec fn pairs_lookup(ps: Seq<(Seq<char>, Seq<char>)>, key: Seq<char>) -> Option<Seq<char>>
    decreases ps.len(),
{
    if ps.len() == 0 {
        None
    } else if ps.last().0 == key {
        Some(ps.last().1)
    } else {
        pairs_lookup(ps.drop_last(), key)
    }
}

/// Pairs of character vectors viewed as pairs of texts.
pub open spec fn pairs_seq(v: Seq<(Vec<char>, Vec<char>)>) -> Seq<(Seq<char>, Seq<char>)> {
    v.map_values(|p: (Vec<char>, Vec<char>)| (p.0@, p.1@))
}

/// The key/value map of a Go struct tag such as `json:"x",validate:"min=1"`.
#[derive(Debug)]
pub struct TagMap {
    pairs: Vec<(Vec<char>, Vec<char>)>,
}

impl TagMap {
    /// The pairs in the order they were read.
    pub closed spec fn pairs_spec(&self) -> Seq<(Seq<char>, Seq<char>)> {
        pairs_seq(self.pairs@)
    }

    pub open spec fn lookup(&self, key: Seq<char>) -> Option<Seq<char>> {
        pairs_lookup(self.pairs_spec(), key)
    }

    /// The value of `key` (the last occurrence wins).
    pub fn get(&self, key: &str) -> (r: Option<String>)
        ensures
            match r {
                Some(v) => self.lookup(key@) == Some(v@),
                None => self.lookup(key@) is None,
            },
    {
        let k = chars_of(key);
        let mut i = self.pairs.len();
        let ghost all = self.pairs_spec();
        assert(all.subrange(0, i as int) == all);
        while i > 0
            invariant
                i <= self.pairs@.len(),
                all == self.pairs_spec(),
                k@ == key@,
                pairs_lookup(all, key@) == pairs_lookup(all.subrange(0, i as int), key@),
            decreases i,
        {
            assert(all.subrange(0, i as int).drop_last() == all.subrange(0, i - 1));
            if eq_chars(&self.pairs[i - 1].0, &k) {
                return Some(string_of(&self.pairs[i - 1].1));
            }
            i = i - 1;
        }
        None
    }

    pub fn contains_key(&self, key: &str) -> (b: bool)
        ensures
            b == self.lookup(key@) is Some,
    {
        self.get(key).is_some()
    }
}

/// Parses a Go struct tag (`json:"x",validate:"min=1,max=2"`, order-insensitive, best-effort).
pub fn tag_kv_map(tag: &str) -> (m: TagMap)
    ensures
        m.pairs_spec() == tag_pairs(tag@, 0),
{
    let s = chars_of(tag);
    let mut pairs: Vec<(Vec<char>, Vec<char>)> = Vec::new();
    let mut i: usize = 0;
    loop
        invariant_except_break
            i <= s.len(),
            s@ == tag@,
            pairs_seq(pairs@) + tag_pairs(s@, i as int) == tag_pairs(s@, 0),
        ensures
            pairs_seq(pairs@) == tag_pairs(s@, 0),
            s@ == tag@,
        decreases s.len() - i,
    {
        if i >= s.len() {
            assert(pairs_seq(pairs@) + Seq::empty() == pairs_seq(pairs@));
            break;
        }
        let i0 = i;
        let mut j = i;
        while j < s.len() && (s[j] == ' ' || s[j] == ',' || s[j] == '\t')
            invariant
                i0 <= j <= s.len(),
                skip_tag_seps(s@, i0 as int) == skip_tag_seps(s@, j as int),
            decreases s.len() - j,
        {
            j = j + 1;
        }
        let start = j;
        while j < s.len() && crate::text::is_alnum_exec(s[j])
            invariant
                start <= j <= s.len(),
                alnum_run(s@, start as int) == alnum_run(s@, j as int),
            decreases s.len() - j,
        {
            j = j + 1;
        }
        if j == start || j >= s.len() || s[j] != ':' || j + 1 >= s.len() || s[j + 1] != '"' {
            assert(pairs_seq(pairs@) + Seq::empty() == pairs_seq(pairs@));
            break;
        }
        let key_end = j;
        let val_start = j + 2;
        let mut q = val_start;
        while q < s.len() && s[q] != '"'
            invariant
                val_start <= q <= s.len(),
                quote_at(s@, val_start as int) == quote_at(s@, q as int),
            decreases s.len() - q,
        {
            q = q + 1;
        }
        if q >= s.len() {
            assert(pairs_seq(pairs@) + Seq::empty() == pairs_seq(pairs@));
            break;
        }
        let key = slice(&s, start, key_end);
        let val = slice(&s, val_start, q);
        let ghost p0 = pairs@;
        pairs.push((key, val));
        assert(pairs_seq(pairs@) =~= pairs_seq(p0).push((key@, val@)));
        assert(tag_pairs(s@, i0 as int) == seq![(key@, val@)] + tag_pairs(s@, q + 1));
        assert(pairs_seq(pairs@) + tag_pairs(s@, q + 1) =~= pairs_seq(p0) + tag_pairs(
            s@,
            i0 as int,
        ));
        i = q + 1;
    }
    TagMap { pairs }
}

// ---------------------------------------------------------------------------
// API types -> Rust types
// ---------------------------------------------------------------------------

/// The Rust type of an API type name in group `g`: `[]T` is `Vec<T>`, the basic
/// Go types map to Rust primitives, other names to the group's generated types.
pub open spec fn api_ty_spec(g: Seq<char>, t: Seq<char>) -> Seq<char>
    decreases t.len(),
{
    if starts_with(t, seq!['[', ']']) {
        "Vec<"@ + api_ty_spec(g, t.subrange(2, t.len() as int)) + ">"@
    } else if t == "string"@ {
        "String"@
    } else if t == "bool"@ {
        "bool"@
    } else if t == "int"@ || t == "int64"@ {
        "i64"@
    } else if t == "int32"@ {
        "i32"@
    } else if t == "uint"@ || t == "uint64"@ {
        "u64"@
    } else if t == "uint32"@ {
        "u32"@
    } else if t == "float32"@ {
        "f32"@
    } else if t == "float64"@ {
        "f64"@
    } else {
        "crate::types::"@ + g + "::types::"@ + t
    }
}

/// The Go basic types of the API language and the Rust primitive each stands for.
pub open spec fn go_basic_types() -> Seq<(Seq<char>, Seq<char>)> {
    seq![
        ("string"@, "String"@),
        ("bool"@, "bool"@),
        ("int"@, "i64"@),
        ("int64"@, "i64"@),
        ("int32"@, "i32"@),
        ("uint"@, "u64"@),
        ("uint64"@, "u64"@),
        ("uint32"@, "u32"@),
        ("float32"@, "f32"@),
        ("float64"@, "f64"@),
    ]
}

/// Every Go basic type becomes its Rust primitive in every group, never a generated
/// group type, and a list `[]T` of one becomes `Vec` of that primitive.
pub proof fn law_basic_types_are_primitives(g: Seq<char>, k: int)
    requires
        0 <= k < go_basic_types().len(),
    ensures
        api_ty_spec(g, go_basic_types()[k].0) == go_basic_types()[k].1,
        api_ty_spec(g, seq!['[', ']'] + go_basic_types()[k].0) == "Vec<"@ + go_basic_types()[k].1
            + ">"@,
{
    reveal_strlit("string");
    reveal_strlit("String");
    reveal_strlit("bool");
    reveal_strlit("int");
    reveal_strlit("int64");
    reveal_strlit("i64");
    reveal_strlit("int32");
    reveal_strlit("i32");
    reveal_strlit("uint");
    reveal_strlit("uint64");
    reveal_strlit("u64");
    reveal_strlit("uint32");
    reveal_strlit("u32");
    reveal_strlit("float32");
    reveal_strlit("f32");
    reveal_strlit("float64");
    reveal_strlit("f64");
    let t = go_basic_types()[k].0;
    assert(!starts_with(t, seq!['[', ']'])) by {
        if starts_with(t, seq!['[', ']']) {
            assert(t.subrange(0, 2)[0] == t[0]);
        }
    }
    let lt = seq!['[', ']'] + t;
    assert(starts_with(lt, seq!['[', ']'])) by {
        assert(lt.subrange(0, 2) =~= seq!['[', ']']);
    }
    assert(lt.subrange(2, lt.len() as int) =~= t);
    if k == 0 {
        assert(t == "string"@);
    }
    if k == 1 {
        assert(t == "bool"@);
        assert(t != "string"@) by { if t == "string"@ { assert(t.len() == "string"@.len()); } }
    }
    if k == 2 {
        assert(t == "int"@);
        assert(t != "string"@) by { if t == "string"@ { assert(t.len() == "string"@.len()); } }
        assert(t != "bool"@) by { if t == "bool"@ { assert(t.len() == "bool"@.len()); } }
    }
    if k == 3 {
        assert(t == "int64"@);
        assert(t != "string"@) by { if t == "string"@ { assert(t.len() == "string"@.len()); } }
        assert(t != "bool"@) by { if t == "bool"@ { assert(t.len() == "bool"@.len()); } }
        assert(t != "int"@) by { if t == "int"@ { assert(t.len() == "int"@.len()); } }
    }
    if k == 4 {
        assert(t == "int32"@);
        assert(t != "string"@) by { if t == "string"@ { assert(t.len() == "string"@.len()); } }
        assert(t != "bool"@) by { if t == "bool"@ { assert(t.len() == "bool"@.len()); } }
        assert(t != "int"@) by { if t == "int"@ { assert(t.len() == "int"@.len()); } }
        assert(t != "int64"@) by { if t == "int64"@ { assert(t[3] == "int64"@[3]); } }
    }
    if k == 5 {
        assert(t == "uint"@);
        assert(t != "string"@) by { if t == "string"@ { assert(t.len() == "string"@.len()); } }
        assert(t != "bool"@) by { if t == "bool"@ { assert(t[0] == "bool"@[0]); } }
        assert(t != "int"@) by { if t == "int"@ { assert(t.len() == "int"@.len()); } }
        assert(t != "int64"@) by { if t == "int64"@ { assert(t.len() == "int64"@.len()); } }
        assert(t != "int32"@) by { if t == "int32"@ { assert(t.len() == "int32"@.len()); } }
    }
    if k == 6 {
        assert(t == "uint64"@);
        assert(t != "string"@) by { if t == "string"@ { assert(t[0] == "string"@[0]); } }
        assert(t != "bool"@) by { if t == "bool"@ { assert(t.len() == "bool"@.len()); } }
        assert(t != "int"@) by { if t == "int"@ { assert(t.len() == "int"@.len()); } }
        assert(t != "int64"@) by { if t == "int64"@ { assert(t.len() == "int64"@.len()); } }
        assert(t != "int32"@) by { if t == "int32"@ { assert(t.len() == "int32"@.len()); } }
        assert(t != "uint"@) by { if t == "uint"@ { assert(t.len() == "uint"@.len()); } }
    }
    if k == 7 {
        assert(t == "uint32"@);
        assert(t != "string"@) by { if t == "string"@ { assert(t[0] == "string"@[0]); } }
        assert(t != "bool"@) by { if t == "bool"@ { assert(t.len() == "bool"@.len()); } }
        assert(t != "int"@) by { if t == "int"@ { assert(t.len() == "int"@.len()); } }
        assert(t != "int64"@) by { if t == "int64"@ { assert(t.len() == "int64"@.len()); } }
        assert(t != "int32"@) by { if t == "int32"@ { assert(t.len() == "int32"@.len()); } }
        assert(t != "uint"@) by { if t == "uint"@ { assert(t.len() == "uint"@.len()); } }
        assert(t != "uint64"@) by { if t == "uint64"@ { assert(t[4] == "uint64"@[4]); } }
    }
    if k == 8 {
        assert(t == "float32"@);
        assert(t != "string"@) by { if t == "string"@ { assert(t.len() == "string"@.len()); } }
        assert(t != "bool"@) by { if t == "bool"@ { assert(t.len() == "bool"@.len()); } }
        assert(t != "int"@) by { if t == "int"@ { assert(t.len() == "int"@.len()); } }
        assert(t != "int64"@) by { if t == "int64"@ { assert(t.len() == "int64"@.len()); } }
        assert(t != "int32"@) by { if t == "int32"@ { assert(t.len() == "int32"@.len()); } }
        assert(t != "uint"@) by { if t == "uint"@ { assert(t.len() == "uint"@.len()); } }
        assert(t != "uint64"@) by { if t == "uint64"@ { assert(t.len() == "uint64"@.len()); } }
        assert(t != "uint32"@) by { if t == "uint32"@ { assert(t.len() == "uint32"@.len()); } }
    }
    if k == 9 {
        assert(t == "float64"@);
        assert(t != "string"@) by { if t == "string"@ { assert(t.len() == "string"@.len()); } }
        assert(t != "bool"@) by { if t == "bool"@ { assert(t.len() == "bool"@.len()); } }
        assert(t != "int"@) by { if t == "int"@ { assert(t.len() == "int"@.len()); } }
        assert(t != "int64"@) by { if t == "int64"@ { assert(t.len() == "int64"@.len()); } }
        assert(t != "int32"@) by { if t == "int32"@ { assert(t.len() == "int32"@.len()); } }
        assert(t != "uint"@) by { if t == "uint"@ { assert(t.len() == "uint"@.len()); } }
        assert(t != "uint64"@) by { if t == "uint64"@ { assert(t.len() == "uint64"@.len()); } }
        assert(t != "uint32"@) by { if t == "uint32"@ { assert(t.len() == "uint32"@.len()); } }
        assert(t != "float32"@) by { if t == "float32"@ { assert(t[5] == "float32"@[5]); } }
    }
    assert(api_ty_spec(g, lt) == "Vec<"@ + api_ty_spec(g, t) + ">"@);
}

/// A name that is neither a Go basic type nor a list is a type generated for the
/// group: `crate::types::<g>::types::<name>`.
pub proof fn law_other_types_are_group_types(g: Seq<char>, t: Seq<char>)
    requires
        forall|k: int| 0 <= k < go_basic_types().len() ==> t != (#[trigger] go_basic_types()[k]).0,
        !starts_with(t, seq!['[', ']']),
    ensures
        api_ty_spec(g, t) == "crate::types::"@ + g + "::types::"@ + t,
{
    assert(t != go_basic_types()[0].0);
    assert(t != go_basic_types()[1].0);
    assert(t != go_basic_types()[2].0);
    assert(t != go_basic_types()[3].0);
    assert(t != go_basic_types()[4].0);
    assert(t != go_basic_types()[5].0);
    assert(t != go_basic_types()[6].0);
    assert(t != go_basic_types()[7].0);
    assert(t != go_basic_types()[8].0);
    assert(t != go_basic_types()[9].0);
}

fn api_ty_from(g: &Vec<char>, t: &Vec<char>, i: usize) -> (r: Vec<char>)
    requires
        i <= t.len(),
    ensures
        r@ == api_ty_spec(g@, t@.subrange(i as int, t.len() as int)),
    decreases t.len() - i,
{
    let rest = slice(t, i, t.len());
    let brackets = chars_of("[]");
    proof {
        reveal_strlit("[]");
        assert(brackets@ == seq!['[', ']']);
    }
    if crate::text::starts_with_exec(&rest, &brackets) {
        assert(rest@.subrange(2, rest@.len() as int) == t@.subrange(i + 2, t.len() as int));
        let inner = api_ty_from(g, t, i + 2);
        let mut r = chars_of("Vec<");
        extend(&mut r, &inner);
        extend_str(&mut r, ">");
        return r;
    }
    if eq_str(&rest, "string") {
        chars_of("String")
    } else if eq_str(&rest, "bool") {
        chars_of("bool")
    } else if eq_str(&rest, "int") || eq_str(&rest, "int64") {
        chars_of("i64")
    } else if eq_str(&rest, "int32") {
        chars_of("i32")
    } else if eq_str(&rest, "uint") || eq_str(&rest, "uint64") {
        chars_of("u64")
    } else if eq_str(&rest, "uint32") {
        chars_of("u32")
    } else if eq_str(&rest, "float32") {
        chars_of("f32")
    } else if eq_str(&rest, "float64") {
        chars_of("f64")
    } else {
        let mut r = chars_of("crate::types::");
        extend(&mut r, g);
        extend_str(&mut r, "::types::");
        extend(&mut r, &rest);
        r
    }
}

pub fn api_ty_to_rust_chars(g: &Vec<char>, t: &Vec<char>) -> (r: Vec<char>)
    ensures
        r@ == api_ty_spec(g@, t@),
{
    assert(t@.subrange(0, t.len() as int) == t@);
    api_ty_from(g, t, 0)
}

pub fn api_ty_to_rust(g: &str, api_ty: &str) -> (r: String)
    ensures
        r@ == api_ty_spec(g@, api_ty@),
{
    let gv = chars_of(g);
    let tv = chars_of(api_ty);
    string_of(&api_ty_to_rust_chars(&gv, &tv))
}

// ---------------------------------------------------------------------------
// JSON escaping
// ---------------------------------------------------------------------------

/// Backslashes doubled, then quotes escaped.
pub open spec fn escape_json_spec(s: Seq<char>) -> Seq<char>
    decreases s.len(),
{
    if s.len() == 0 {
        s
    } else {
        let c = s.last();
        escape_json_spec(s.drop_last()) + if c == '\\' {
            seq!['\\', '\\']
        } else if c == '"' {
            seq!['\\', '"']
        } else {
            seq![c]
        }
    }
}

pub fn escape_json(s: &str) -> (r: String)
    ensures
        r@ == escape_json_spec(s@),
{
    let v = chars_of(s);
    let mut out: Vec<char> = Vec::new();
    let mut i: usize = 0;
    while i < v.len()
        invariant
            i <= v.len(),
            out@ == escape_json_spec(v@.subrange(0, i as int)),
        decreases v.len() - i,
    {
        assert(v@.subrange(0, i + 1).drop_last() == v@.subrange(0, i as int));
        let c = v[i];
        if c == '\\' {
            out.push('\\');
            out.push('\\');
        } else if c == '"' {
            out.push('\\');
            out.push('"');
        } else {
            out.push(c);
        }
        i = i + 1;
    }
    assert(v@.subrange(0, v.len() as int) == v@);
    string_of(&out)
}


// ---------------------------------------------------------------------------
// Validation attributes
// ---------------------------------------------------------------------------

/// The value of a run of decimal digits.
pub open spec fn digits_value(d: Seq<char>) -> int
    decreases d.len(),
{
    if d.len() == 0 {
        0
    } else {
        10 * digits_value(d.drop_last()) + ((d.last() as u32) - ('0' as u32))
    }
}

pub open spec fn all_digits(d: Seq<char>) -> bool {
    forall|i: int| 0 <= i < d.len() ==> is_digit(#[trigger] d[i])
}

/// `i64::from_str`: an optional sign, then at least one digit, within range.
pub open spec fn parse_i64_spec(s: Seq<char>) -> Option<int> {
    let neg = s.len() > 0 && s[0] == '-';
    let d = if s.len() > 0 && (s[0] == '-' || s[0] == '+') {
        s.drop_first()
    } else {
        s
    };
    if d.len() == 0 || !all_digits(d) {
        None
    } else {
        let v = if neg {
            -digits_value(d)
        } else {
            digits_value(d)
        };
        if i64::MIN <= v <= i64::MAX {
            Some(v)
        } else {
            None
        }
    }
}

proof fn lemma_digits_value_nonneg(d: Seq<char>)
    requires
        all_digits(d),
    ensures
        digits_value(d) >= 0,
    decreases d.len(),
{
    if d.len() > 0 {
        assert(all_digits(d.drop_last()));
        assert(is_digit(d[d.len() - 1]));
        lemma_digits_value_nonneg(d.drop_last());
    }
}

proof fn lemma_digits_value_grows(d: Seq<char>, k: int)
    requires
        all_digits(d),
        0 <= k <= d.len(),
    ensures
        digits_value(d) >= digits_value(d.subrange(0, k)),
    decreases d.len() - k,
{
    if k < d.len() {
        lemma_digits_value_grows(d, k + 1);
        let p = d.subrange(0, k + 1);
        assert(p.drop_last() == d.subrange(0, k));
        assert(all_digits(d.subrange(0, k)));
        lemma_digits_value_nonneg(d.subrange(0, k));
        assert(is_digit(p.last()));
    } else {
        assert(d.subrange(0, k) == d);
    }
}

/// `s.parse::<i64>()`.
pub fn parse_i64(s: &Vec<char>) -> (r: Option<i64>)
    ensures
        match r {
            Some(v) => parse_i64_spec(s@) == Some(v as int),
            None => parse_i64_spec(s@) is None,
        },
{
    let mut start: usize = 0;
    let neg = s.len() > 0 && s[0] == '-';
    if s.len() > 0 && (s[0] == '-' || s[0] == '+') {
        start = 1;
    }
    let ghost d = s@.subrange(start as int, s.len() as int);
    proof {
        if start == 1 {
            assert(d == s@.drop_first());
        } else {
            assert(d == s@);
        }
    }
    if start >= s.len() {
        assert(d.len() == 0);
        return None;
    }
    let bound: u64 = 9223372036854775808;
    let mut acc: u64 = 0;
    let mut over = false;
    let mut i = start;
    while i < s.len()
        invariant
            start <= i <= s.len(),
            d == s@.subrange(start as int, s.len() as int),
            d == (if s@.len() > 0 && (s@[0] == '-' || s@[0] == '+') {
                s@.drop_first()
            } else {
                s@
            }),
            all_digits(s@.subrange(start as int, i as int)),
            over ==> digits_value(s@.subrange(start as int, i as int)) > bound,
            !over ==> acc == digits_value(s@.subrange(start as int, i as int)) && acc <= bound,
            bound == 9223372036854775808u64,
        decreases s.len() - i,
    {
        let c = s[i];
        if !('0' <= c && c <= '9') {
            assert(d[i - start] == c);
            assert(!is_digit(d[i - start]));
            assert(!all_digits(d));
            return None;
        }
        let ghost p = s@.subrange(start as int, i + 1);
        assert(p.drop_last() == s@.subrange(start as int, i as int));
        assert(all_digits(p)) by {
            assert forall|k: int| 0 <= k < p.len() implies is_digit(#[trigger] p[k]) by {
                if k < p.len() - 1 {
                    assert(p[k] == s@.subrange(start as int, i as int)[k]);
                }
            }
        }
        let dv: u64 = (c as u64) - 48;
        if !over {
            if acc > (bound - dv) / 10 {
                over = true;
                proof {
                    lemma_digits_value_nonneg(s@.subrange(start as int, i as int));
                    assert(10 * acc + dv > bound) by (nonlinear_arith)
                        requires
                            acc > (bound - dv) / 10,
                            dv <= 9,
                            bound == 9223372036854775808u64,
                    ;
                }
            } else {
                proof {
                    assert(10 * acc + dv <= bound) by (nonlinear_arith)
                        requires
                            acc <= (bound - dv) / 10,
                            dv <= 9,
                            bound == 9223372036854775808u64,
                    ;
                }
                acc = acc * 10 + dv;
            }
        } else {
            proof {
                lemma_digits_value_nonneg(s@.subrange(start as int, i as int));
            }
        }
        i = i + 1;
    }
    assert(s@.subrange(start as int, s.len() as int) == d);
    if over {
        return None;
    }
    if neg {
        if acc == bound {
            Some(i64::MIN)
        } else {
            Some(-(acc as i64))
        }
    } else {
        if acc == bound {
            None
        } else {
            Some(acc as i64)
        }
    }
}

/// The validation state while reading the items of a `validate` tag.
pub ghost struct ValidateState {
    pub attrs: Seq<Seq<char>>,
    pub min: Option<int>,
    pub max: Option<int>,
}

/// The first `=` of `s`, if any.
pub open spec fn first_eq(s: Seq<char>) -> Option<int> {
    crate::text::find_from(s, seq!['='], 0)
}

/// The effect of one (trimmed) item of a `validate` tag.
pub open spec fn validate_step(st: ValidateState, it: Seq<char>) -> ValidateState {
    if it.len() == 0 {
        st
    } else if it == "email"@ {
        ValidateState { attrs: st.attrs.push("#[validate(email)]"@), ..st }
    } else if it == "url"@ {
        ValidateState { attrs: st.attrs.push("#[validate(url)]"@), ..st }
    } else if it == "required"@ {
        ValidateState { attrs: st.attrs.push("#[validate(required)]"@), ..st }
    } else {
        match first_eq(it) {
            None => st,
            Some(k) => {
                let key = trim(it.subrange(0, k));
                let v = parse_i64_spec(it.subrange(k + 1, it.len() as int));
                if key == "min"@ && v is Some {
                    ValidateState { min: v, ..st }
                } else if key == "max"@ && v is Some {
                    ValidateState { max: v, ..st }
                } else {
                    st
                }
            },
        }
    }
}

/// The state after the items of a tag's comma-separated pieces.
pub open spec fn validate_fold(segs: Seq<Seq<char>>) -> ValidateState
    decreases segs.len(),
{
    if segs.len() == 0 {
        ValidateState { attrs: Seq::empty(), min: None, max: None }
    } else {
        validate_step(validate_fold(segs.drop_last()), trim(segs.last()))
    }
}

pub open spec fn bound_part(label: Seq<char>, v: Option<int>, positive_only: bool) -> Seq<Seq<char>> {
    match v {
        Some(n) => if !positive_only || n > 0 {
            seq![label + decimal(n)]
        } else {
            Seq::empty()
        },
        None => Seq::empty(),
    }
}

pub open spec fn is_numeric_ty(t: Seq<char>) -> bool {
    t == "i64"@ || t == "i32"@ || t == "u64"@ || t == "u32"@ || t == "f64"@ || t == "f32"@
}

/// The `validator` attributes for a field of Rust type `ty` with `validate` tag `tag`:
/// `email`, `url` and `required` as they come; `min`/`max` (the last of each wins)
/// as a `length(...)` check on `String` (positive bounds only) or a `range(...)`
/// check on numbers.
pub open spec fn validate_attrs_spec(ty: Seq<char>, tag: Seq<char>) -> Seq<Seq<char>> {
    let st = validate_fold(segments(tag, ','));
    if ty == "String"@ {
        let parts = bound_part("min = "@, st.min, true) + bound_part("max = "@, st.max, true);
        if parts.len() > 0 {
            st.attrs.push("#[validate(length("@ + join(parts, ", "@) + "))]"@)
        } else {
            st.attrs
        }
    } else if is_numeric_ty(ty) {
        let parts = bound_part("min = "@, st.min, false) + bound_part("max = "@, st.max, false);
        if parts.len() > 0 {
            st.attrs.push("#[validate(range("@ + join(parts, ", "@) + "))]"@)
        } else {
            st.attrs
        }
    } else {
        st.attrs
    }
}

pub open spec fn strings_view(v: Seq<String>) -> Seq<Seq<char>> {
    v.map_values(|s: String| s@)
}

fn bound_parts(min: Option<i64>, max: Option<i64>, positive_only: bool) -> (r: Vec<Vec<char>>)
    ensures
        r@.map_values(|v: Vec<char>| v@) == bound_part("min = "@, opt_int(min), positive_only)
            + bound_part("max = "@, opt_int(max), positive_only),
{
    let mut r: Vec<Vec<char>> = Vec::new();
    let ghost a = bound_part("min = "@, opt_int(min), positive_only);
    let ghost b = bound_part("max = "@, opt_int(max), positive_only);
    match min {
        Some(n) => if !positive_only || n > 0 {
            let mut t = chars_of("min = ");
            let d = decimal_i64(n);
            extend(&mut t, &d);
            r.push(t);
        },
        None => {},
    }
    assert(r@.map_values(|v: Vec<char>| v@) =~= a);
    let ghost r0 = r@;
    match max {
        Some(n) => if !positive_only || n > 0 {
            let mut t = chars_of("max = ");
            let d = decimal_i64(n);
            extend(&mut t, &d);
            r.push(t);
        },
        None => {},
    }
    assert(r@.map_values(|v: Vec<char>| v@) =~= a + b);
    r
}

pub open spec fn opt_int(o: Option<i64>) -> Option<int> {
    match o {
        Some(n) => Some(n as int),
        None => None,
    }
}

/// `parts` joined with `sep` between them.
pub fn join_with(parts: &Vec<Vec<char>>, sep: &str) -> (r: Vec<char>)
    ensures
        r@ == join(parts@.map_values(|v: Vec<char>| v@), sep@),
{
    let ghost pv = parts@.map_values(|v: Vec<char>| v@);
    let sepv = chars_of(sep);
    let mut r: Vec<char> = Vec::new();
    let mut i: usize = 0;
    while i < parts.len()
        invariant
            i <= parts.len(),
            sepv@ == sep@,
            pv == parts@.map_values(|v: Vec<char>| v@),
            r@ == join(pv.subrange(0, i as int), sep@),
        decreases parts.len() - i,
    {
        assert(pv.subrange(0, i + 1).drop_last() == pv.subrange(0, i as int));
        assert(pv.subrange(0, i + 1).last() == parts@[i as int]@);
        if i > 0 {
            extend(&mut r, &sepv);
        }
        extend(&mut r, &parts[i]);
        if i == 0 {
            assert(pv.subrange(0, 1).len() == 1);
        }
        i = i + 1;
    }
    assert(pv.subrange(0, parts.len() as int) == pv);
    r
}

/// Maps a useful subset of go-validate tags to attributes of the `validator` crate.
pub fn validate_attrs(field_rust_ty: &str, validate_tag: &str) -> (r: Vec<String>)
    ensures
        strings_view(r@) == validate_attrs_spec(field_rust_ty@, validate_tag@),
{
    let tag = chars_of(validate_tag);
    let segs = split_chars(&tag, ',');
    let ghost sg = segments(tag@, ',');
    let mut out: Vec<String> = Vec::new();
    let mut min_v: Option<i64> = None;
    let mut max_v: Option<i64> = None;
    let mut i: usize = 0;
    assert(sg.subrange(0, 0) == Seq::<Seq<char>>::empty());
    assert(strings_view(out@) =~= Seq::<Seq<char>>::empty());
    while i < segs.len()
        invariant
            i <= segs@.len(),
            segs@.len() == sg.len(),
            sg == segments(tag@, ','),
            tag@ == validate_tag@,
            forall|k: int| 0 <= k < sg.len() ==> (#[trigger] segs@[k])@ == sg[k],
            validate_fold(sg.subrange(0, i as int)) == (ValidateState {
                attrs: strings_view(out@),
                min: opt_int(min_v),
                max: opt_int(max_v),
            }),
        decreases segs@.len() - i,
    {
        assert(sg.subrange(0, i + 1).drop_last() == sg.subrange(0, i as int));
        assert(sg.subrange(0, i + 1).last() == sg[i as int]);
        let it = trim_exec(&segs[i]);
        let ghost o0 = out@;
        if it.len() == 0 {
        } else if eq_str(&it, "email") {
            out.push(String::from_str("#[validate(email)]"));
            assert(strings_view(out@) =~= strings_view(o0).push("#[validate(email)]"@));
        } else if eq_str(&it, "url") {
            out.push(String::from_str("#[validate(url)]"));
            assert(strings_view(out@) =~= strings_view(o0).push("#[validate(url)]"@));
        } else if eq_str(&it, "required") {
            out.push(String::from_str("#[validate(required)]"));
            assert(strings_view(out@) =~= strings_view(o0).push("#[validate(required)]"@));
        } else {
            let eqs = chars_of("=");
            proof {
                reveal_strlit("=");
                assert(eqs@ == seq!['=']);
            }
            match crate::text::find_from_exec(&it, &eqs, 0) {
                None => {},
                Some(k) => {
                    proof {
                        crate::text::lemma_find_from_spec(it@, eqs@, 0);
                    }
                    let kpart = slice(&it, 0, k);
                    let key = trim_exec(&kpart);
                    let vpart = slice(&it, k + 1, it.len());
                    let v = parse_i64(&vpart);
                    if eq_str(&key, "min") && v.is_some() {
                        min_v = v;
                    } else if eq_str(&key, "max") && v.is_some() {
                        max_v = v;
                    }
                },
            }
        }
        i = i + 1;
    }
    assert(sg.subrange(0, segs@.len() as int) == sg);
    let ty = chars_of(field_rust_ty);
    let is_string = eq_str(&ty, "String");
    let is_num = eq_str(&ty, "i64") || eq_str(&ty, "i32") || eq_str(&ty, "u64") || eq_str(&ty, "u32")
        || eq_str(&ty, "f64") || eq_str(&ty, "f32");
    if is_string || is_num {
        let parts = bound_parts(min_v, max_v, is_string);
        if parts.len() > 0 {
            let mut a = if is_string {
                chars_of("#[validate(length(")
            } else {
                chars_of("#[validate(range(")
            };
            let j = join_with(&parts, ", ");
            extend(&mut a, &j);
            extend_str(&mut a, "))]");
            let ghost o0 = out@;
            out.push(string_of(&a));
            assert(strings_view(out@) =~= strings_view(o0).push(a@));
        }
    }
    out
}

} // verus!
