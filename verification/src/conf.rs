//! Loading configuration files: the options of a load, the file formats a
//! loader is registered for, and the errors a load reports.
use vstd::prelude::*;
use crate::text::{chars_of, eq_chars, extend, extend_str, lower, string_of};

verus! {

/// How configuration is loaded: whether environment variables are expanded.
#[derive(Debug, Clone, Copy, PartialEq, Eq, Structural)]
pub struct Options {
    pub env: bool,
}

impl Options {
    pub fn new() -> (o: Self)
        ensures
            !o.env,
    {
        Options { env: false }
    }

    /// Expands environment variables in the loaded text.
    pub fn use_env(self) -> (o: Self)
        ensures
            o.env,
    {
        Options { env: true }
    }

    pub fn build(self) -> (o: Options)
        ensures
            o == self,
    {
        self
    }
}

/// An option that adjusts `Options`, for users to implement.
pub trait Option {
    fn apply(&self, opts: &mut Options);
}

/// Why a configuration could not be loaded.
#[derive(Debug)]
pub enum ConfigError {
    Io(String),
    Parse(String),
    UnsupportedFileType(String),
    Validation(String),
}

impl ConfigError {
    pub open spec fn message_spec(&self) -> Seq<char> {
        match self {
            ConfigError::Io(m) => "IO error: "@ + m@,
            ConfigError::Parse(m) => "Parse error: "@ + m@,
            ConfigError::UnsupportedFileType(m) => "Unsupported file type: "@ + m@,
            ConfigError::Validation(m) => "Validation error: "@ + m@,
        }
    }

    /// The error text.
    pub fn message(&self) -> (s: String)
        ensures
            s@ == self.message_spec(),
    {
        let (head, m) = match self {
            ConfigError::Io(m) => ("IO error: ", m),
            ConfigError::Parse(m) => ("Parse error: ", m),
            ConfigError::UnsupportedFileType(m) => ("Unsupported file type: ", m),
            ConfigError::Validation(m) => ("Validation error: ", m),
        };
        let mut out = chars_of(head);
        extend_str(&mut out, m.as_str());
        string_of(&out)
    }
}

/// The formats configuration files come in.
#[derive(Debug, Clone, Copy, PartialEq, Eq, Structural)]
pub enum Format {
    Json,
    Toml,
    Yaml,
}

/// The extension of a path as `Path::extension` gives it.
pub uninterp spec fn path_extension(p: Seq<char>) -> core::option::Option<Seq<char>>;

/// `Path::new(p).extension()`, as text.
#[verifier::external_body]
fn extension(p: &str) -> (r: core::option::Option<String>)
    ensures
        match r {
            Some(e) => path_extension(p@) == Some(e@),
            None => path_extension(p@) is None,
        },
{
    std::path::Path::new(p).extension().and_then(|s| s.to_str()).map(|s| s.to_string())
}

/// `str::to_lowercase` (Unicode lowercasing of a whole text).
pub uninterp spec fn str_lower(s: Seq<char>) -> Seq<char>;

/// `str::to_lowercase`. On ASCII text it agrees with `to_ascii_lowercase`.
#[verifier::external_body]
fn to_lowercase(s: &str) -> (r: String)
    ensures
        r@ == str_lower(s@),
        (forall|i: int| 0 <= i < s@.len() ==> (s@[i] as u32) < 128) ==> r@ == lower(s@),
{
    s.to_lowercase()
}

/// The loader keys, in the order they are registered.
pub open spec fn loader_keys() -> Seq<(Seq<char>, Format)> {
    seq![(".json"@, Format::Json), (".toml"@, Format::Toml), (".yaml"@, Format::Yaml), (".yml"@, Format::Yaml)]
}

/// The format registered for key `k`.
pub open spec fn format_for_key(k: Seq<char>) -> core::option::Option<Format> {
    if k == ".json"@ {
        Some(Format::Json)
    } else if k == ".toml"@ {
        Some(Format::Toml)
    } else if k == ".yaml"@ || k == ".yml"@ {
        Some(Format::Yaml)
    } else {
        None
    }
}

/// A configuration loader: which file extensions it reads, and in which format.
#[derive(Debug)]
pub struct Config {
    loaders: Vec<(String, Format)>,
}

impl Config {
    pub closed spec fn keys(&self) -> Seq<(Seq<char>, Format)> {
        self.loaders@.map_values(|p: (String, Format)| (p.0@, p.1))
    }

    /// A loader for `.json`, `.toml`, `.yaml` and `.yml` files.
    pub fn new() -> (c: Self)
        ensures
            c.keys() == loader_keys(),
    {
        let mut loaders: Vec<(String, Format)> = Vec::new();
        loaders.push((String::from_str(".json"), Format::Json));
        loaders.push((String::from_str(".toml"), Format::Toml));
        loaders.push((String::from_str(".yaml"), Format::Yaml));
        loaders.push((String::from_str(".yml"), Format::Yaml));
        let c = Config { loaders };
        assert(c.keys() =~= loader_keys());
        c
    }

    /// The format registered for an (already lowercased) extension, refused with the
    /// extension when no loader is registered for it.
    pub fn format_for_extension(&self, ext: &str) -> (r: Result<Format, ConfigError>)
        requires
            self.keys() == loader_keys(),
        ensures
            match format_for_key("."@ + ext@) {
                Some(f) => r == Ok::<Format, ConfigError>(f),
                None => r matches Err(ConfigError::UnsupportedFileType(m)) && m@ == ext@,
            },
    {
        let mut key = chars_of(".");
        extend_str(&mut key, ext);
        proof {
            assert(self.keys().len() == self.loaders@.len());
            assert(loader_keys()[0] == (".json"@, Format::Json));
            assert(loader_keys()[1] == (".toml"@, Format::Toml));
            assert(loader_keys()[2] == (".yaml"@, Format::Yaml));
            assert(loader_keys()[3] == (".yml"@, Format::Yaml));
            reveal_strlit(".json");
            reveal_strlit(".toml");
            reveal_strlit(".yaml");
            reveal_strlit(".yml");
        }
        let mut i: usize = 0;
        while i < self.loaders.len()
            invariant
                i <= self.loaders.len(),
                self.keys() == loader_keys(),
                key@ == "."@ + ext@,
                self.keys().len() == self.loaders@.len(),
                forall|k: int| 0 <= k < i ==> self.keys()[k].0 != key@,
            decreases self.loaders.len() - i,
        {
            let kc = chars_of(self.loaders[i].0.as_str());
            if eq_chars(&kc, &key) {
                assert(self.keys()[i as int] == (self.loaders@[i as int].0@, self.loaders@[i as int].1));
                proof {
                    reveal_strlit(".json");
                    reveal_strlit(".toml");
                    reveal_strlit(".yaml");
                    reveal_strlit(".yml");
                    assert(loader_keys()[0] == (".json"@, Format::Json));
                    assert(loader_keys()[1] == (".toml"@, Format::Toml));
                    assert(loader_keys()[2] == (".yaml"@, Format::Yaml));
                    assert(loader_keys()[3] == (".yml"@, Format::Yaml));
                    assert(format_for_key(key@) == Some(self.keys()[i as int].1));
                }
                return Ok(self.loaders[i].1);
            }
            i = i + 1;
        }
        proof {
            reveal_strlit(".json");
            reveal_strlit(".toml");
            reveal_strlit(".yaml");
            reveal_strlit(".yml");
            assert(self.keys()[0].0 != key@);
            assert(self.keys()[1].0 != key@);
            assert(self.keys()[2].0 != key@);
            assert(self.keys()[3].0 != key@);
        }
        Err(ConfigError::UnsupportedFileType(String::from_str(ext)))
    }

    /// The format of `file`, chosen by its lowercased extension; a file without an
    /// extension, or with one no loader is registered for, is refused.
    pub fn format_of(&self, file: &str) -> (r: Result<Format, ConfigError>)
        requires
            self.keys() == loader_keys(),
        ensures
            match path_extension(file@) {
                None => r matches Err(ConfigError::UnsupportedFileType(m)) && m@ == file@,
                Some(e) => match format_for_key("."@ + str_lower(e)) {
                    Some(f) => r == Ok::<Format, ConfigError>(f),
                    None => r matches Err(ConfigError::UnsupportedFileType(m)) && m@ == str_lower(e),
                },
            },
    {
        let ext = match extension(file) {
            Some(e) => to_lowercase(e.as_str()),
            None => {
                return Err(ConfigError::UnsupportedFileType(String::from_str(file)));
            },
        };
        self.format_for_extension(ext.as_str())
    }
}

} // verus!
