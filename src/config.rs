use vstd::prelude::*;

verus! {

/// A value of the global configuration document, as the prompt reads it.
///
/// The document itself is a `Table` whose keys are module names; each
/// module reads the section stored under its own name.
pub enum ConfigValue {
    String(String),
    Integer(i64),
    Boolean(bool),
    Array(Vec<ConfigValue>),
    /// Key/value pairs in document order. Keys are unique in a well-formed
    /// document; a lookup finds the first pair with the key.
    Table(Vec<(String, ConfigValue)>),
    /// Any other kind of value (a date-time, a number with a fraction).
    Other,
}

/// The value stored under `key` among `entries`: the first pair whose key matches.
pub open spec fn table_get(entries: Seq<(String, ConfigValue)>, key: Seq<char>) -> Option<
    ConfigValue,
>
    decreases entries.len(),
{
    if entries.len() == 0 {
        None
    } else if entries[0].0@ == key {
        Some(entries[0].1)
    } else {
        table_get(entries.drop_first(), key)
    }
}

impl ConfigValue {
    /// The value under `key` when this value is a table; nothing otherwise.
    pub open spec fn spec_get(self, key: Seq<char>) -> Option<ConfigValue> {
        match self {
            ConfigValue::Table(entries) => table_get(entries@, key),
            _ => None,
        }
    }

    /// Looks up `key` in this value, which must be a table to hold anything.
    pub fn get(&self, key: &str) -> (r: Option<&ConfigValue>)
        ensures
            match r {
                Some(v) => self.spec_get(key@) == Some(*v),
                None => self.spec_get(key@) is None,
            },
    {
        match self {
            ConfigValue::Table(entries) => {
                let n = entries.len();
                let mut i: usize = 0;
                assert(entries@.subrange(0, n as int) =~= entries@);
                while i < n
                    invariant
                        n == entries@.len(),
                        i <= n,
                        self.spec_get(key@) == table_get(entries@, key@),
                        table_get(entries@, key@) == table_get(entries@.subrange(i as int, n as int), key@),
                    decreases n - i,
                {
                    assert(entries@.subrange(i as int, n as int).drop_first() =~= entries@.subrange(
                        i as int + 1,
                        n as int,
                    ));
                    if text_eq(entries[i].0.as_str(), key) {
                        assert(entries@.subrange(i as int, n as int)[0] == entries@[i as int]);
                        return Some(&entries[i].1);
                    }
                    i = i + 1;
                }
                None
            },
            _ => None,
        }
    }
}

/// Why a section could not be read into a module's configuration.
pub enum ParseError {
    /// The section is not a table.
    NotATable,
    /// The value under `key` is of the wrong kind.
    InvalidType { key: String },
}

/// A recoverable configuration problem, kept for later inspection.
pub enum ConfigError {
    /// The section of `module` could not be read; its defaults were used.
    InvalidConfig { module: String, error: ParseError },
}

/// The diagnostic queue: an append-only record of recoverable configuration
/// problems met during a render.
pub struct ErrorQueue {
    entries: Vec<ConfigError>,
}

impl View for ErrorQueue {
    type V = Seq<ConfigError>;

    closed spec fn view(&self) -> Seq<ConfigError> {
        self.entries@
    }
}

/// `after` is `before` with one more entry, a problem with the section of `module`.
pub open spec fn queued_one(before: Seq<ConfigError>, after: Seq<ConfigError>, module: Seq<char>) -> bool {
    &&& after.len() == before.len() + 1
    &&& after.drop_last() == before
    &&& match after.last() {
        ConfigError::InvalidConfig { module: m, .. } => m@ == module,
    }
}

impl ErrorQueue {
    pub fn new() -> (r: ErrorQueue)
        ensures
            r@ == Seq::<ConfigError>::empty(),
    {
        ErrorQueue { entries: Vec::new() }
    }

    pub fn push(&mut self, error: ConfigError)
        ensures
            final(self)@ == old(self)@.push(error),
    {
        self.entries.push(error);
    }

    pub fn len(&self) -> (r: usize)
        ensures
            r == self@.len(),
    {
        self.entries.len()
    }

    pub fn entries(&self) -> (r: &Vec<ConfigError>)
        ensures
            r@ == self@,
    {
        &self.entries
    }
}

/// Whether two strings hold the same characters.
pub fn text_eq(a: &str, b: &str) -> (r: bool)
    ensures
        r == (a@ == b@),
{
    let n = a.unicode_len();
    if n != b.unicode_len() {
        return false;
    }
    let mut i: usize = 0;
    while i < n
        invariant
            n == a@.len(),
            n == b@.len(),
            i <= n,
            forall|j: int| 0 <= j < i ==> a@[j] == b@[j],
        decreases n - i,
    {
        if a.get_char(i) != b.get_char(i) {
            return false;
        }
        i = i + 1;
    }
    assert(a@ =~= b@);
    true
}

} // verus!
