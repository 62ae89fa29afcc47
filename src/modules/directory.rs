use vstd::prelude::*;

use crate::config::{queued_one, ConfigError, ConfigValue, ErrorQueue, ParseError};
use crate::context::{section_for, Context, ModuleConfig};
use crate::modules::{Color, ModuleSegment, ModuleType, PreparedModule};

verus! {

/// The module that shows the working directory.
pub struct Directory;

/// How the working directory is shown.
#[derive(Debug)]
pub struct DirectoryConfig {
    /// The template of the module's text; `$path` stands for the directory.
    pub format: String,
    /// What stands between two components of the path.
    pub separator: String,
}

impl Default for DirectoryConfig {
    fn default() -> (r: Self)
        ensures
            r.is_default(),
    {
        Self::default_config()
    }
}

/// The text under `key` in `section`: `default` where the key is missing,
/// nothing where its value is not text.
pub open spec fn text_field(section: ConfigValue, key: Seq<char>, default: Seq<char>) -> Option<
    Seq<char>,
> {
    match section.spec_get(key) {
        None => Some(default),
        Some(ConfigValue::String(s)) => Some(s@),
        Some(_) => None,
    }
}

/// Reads the text under `key` in the table `section`, or `default` where
/// the key is missing.
fn read_text(section: &ConfigValue, key: &str, default: &str) -> (r: Result<String, ParseError>)
    ensures
        match r {
            Ok(s) => text_field(*section, key@, default@) == Some(s@),
            Err(ParseError::InvalidType { key: k }) => text_field(*section, key@, default@) is None
                && k@ == key@,
            Err(_) => false,
        },
{
    match section.get(key) {
        None => Ok(String::from_str(default)),
        Some(ConfigValue::String(s)) => Ok(s.clone()),
        Some(_) => Err(ParseError::InvalidType { key: String::from_str(key) }),
    }
}

impl ModuleConfig for DirectoryConfig {
    open spec fn is_default(&self) -> bool {
        self.format@ == "$path"@ && self.separator@ == "/"@
    }

    open spec fn accepts(section: ConfigValue) -> bool {
        &&& section is Table
        &&& text_field(section, "format"@, "$path"@) is Some
        &&& text_field(section, "separator"@, "/"@) is Some
    }

    open spec fn parsed_from(&self, section: ConfigValue) -> bool {
        &&& text_field(section, "format"@, "$path"@) == Some(self.format@)
        &&& text_field(section, "separator"@, "/"@) == Some(self.separator@)
    }

    open spec fn fails_with(section: ConfigValue, error: ParseError) -> bool {
        match error {
            ParseError::NotATable => !(section is Table),
            ParseError::InvalidType { key } => {
                &&& section is Table
                &&& if text_field(section, "format"@, "$path"@) is None {
                    key@ == "format"@
                } else {
                    text_field(section, "separator"@, "/"@) is None && key@ == "separator"@
                }
            },
        }
    }

    proof fn lemma_empty_section_is_default(section: ConfigValue, c: Self) {
    }

    fn default_config() -> (r: Self) {
        DirectoryConfig { format: String::from_str("$path"), separator: String::from_str("/") }
    }

    fn from_section(section: &ConfigValue) -> (r: Result<Self, ParseError>) {
        if !matches!(section, ConfigValue::Table(_)) {
            return Err(ParseError::NotATable);
        }
        let format = match read_text(section, "format", "$path") {
            Ok(s) => s,
            Err(e) => return Err(e),
        };
        let separator = match read_text(section, "separator", "/") {
            Ok(s) => s,
            Err(e) => return Err(e),
        };
        Ok(DirectoryConfig { format, separator })
    }
}

/// The separator that the document `config` gives the directory module:
/// its own where its section reads, '/' otherwise.
pub open spec fn directory_separator(config: Option<ConfigValue>) -> Seq<char> {
    match section_for(config, "directory"@) {
        Some(s) => if DirectoryConfig::accepts(s) {
            text_field(s, "separator"@, "/"@)->Some_0
        } else {
            "/"@
        },
        None => "/"@,
    }
}

/// How the queue goes from `before` to `after` when the directory module
/// reads its section of `config`: one entry is added exactly when the
/// section is there and cannot be read, and it holds the reason.
pub open spec fn directory_queue(config: Option<ConfigValue>, before: Seq<ConfigError>, after: Seq<ConfigError>) -> bool {
    match section_for(config, "directory"@) {
        Some(s) => if DirectoryConfig::accepts(s) {
            after == before
        } else {
            &&& queued_one(before, after, "directory"@)
            &&& match after.last() {
                ConfigError::InvalidConfig { error, .. } => DirectoryConfig::fails_with(s, error),
            }
        },
        None => after == before,
    }
}

impl ModuleType for Directory {
    open spec fn spec_name(&self) -> Seq<char> {
        "directory"@
    }

    open spec fn spec_description(&self) -> Seq<char> {
        "The current working directory"@
    }

    open spec fn prepared(
        &self,
        context: Context,
        before: Seq<ConfigError>,
        output: PreparedModule,
        after: Seq<ConfigError>,
    ) -> bool {
        &&& output.0@.len() == 1
        &&& output.0@[0].color == Color::Cyan
        &&& output.0@[0].text@ == join(
            components(context.current_dir@),
            directory_separator(context.prompt_config),
        )
        &&& directory_queue(context.prompt_config, before, after)
    }

    fn name(&self) -> (r: &str) {
        "directory"
    }

    fn description(&self) -> &str {
        "The current working directory"
    }

    fn prepare(&self, context: &Context, queue: &mut ErrorQueue) -> (r: PreparedModule) {
        let config: DirectoryConfig = context.load_config(self.name(), queue);
        let directory_path = join_separators(context.current_dir.as_str(), config.separator.as_str());
        PreparedModule(vec![ModuleSegment { color: Color::Cyan, text: directory_path }])
    }
}

/// The parts of `path` between its '/' characters, in order. Nothing is
/// dropped or merged: a leading '/' gives an empty first part, and two '/'
/// in a row give an empty part between them.
pub open spec fn split_at_slashes(path: Seq<char>) -> Seq<Seq<char>>
    decreases path.len(),
{
    if path.len() == 0 {
        seq![Seq::<char>::empty()]
    } else {
        let rest = split_at_slashes(path.drop_last());
        if path.last() == '/' {
            rest.push(Seq::<char>::empty())
        } else {
            rest.update(rest.len() - 1, rest.last().push(path.last()))
        }
    }
}

/// `path` without the '/' that ends it, if one does.
pub open spec fn trim_trailing_slash(path: Seq<char>) -> Seq<char> {
    if path.len() > 0 && path.last() == '/' {
        path.drop_last()
    } else {
        path
    }
}

/// The components of `path`, left to right. An absolute path starts with
/// an empty root component; a '/' that ends the path starts no component,
/// so "/" is the root alone; two '/' in a row give an empty component
/// between them.
pub open spec fn components(path: Seq<char>) -> Seq<Seq<char>> {
    split_at_slashes(trim_trailing_slash(path))
}

/// The parts in order, with `separator` between each two neighbours.
pub open spec fn join(parts: Seq<Seq<char>>, separator: Seq<char>) -> Seq<char>
    decreases parts.len(),
{
    if parts.len() == 0 {
        Seq::<char>::empty()
    } else if parts.len() == 1 {
        parts[0]
    } else {
        join(parts.drop_last(), separator) + separator + parts.last()
    }
}

/// `path` with every '/' replaced by `separator`.
pub open spec fn replace_separators(path: Seq<char>, separator: Seq<char>) -> Seq<char>
    decreases path.len(),
{
    if path.len() == 0 {
        Seq::<char>::empty()
    } else if path.last() == '/' {
        replace_separators(path.drop_last(), separator) + separator
    } else {
        replace_separators(path.drop_last(), separator).push(path.last())
    }
}

proof fn lemma_split_not_empty(path: Seq<char>)
    ensures
        split_at_slashes(path).len() >= 1,
    decreases path.len(),
{
    if path.len() > 0 {
        lemma_split_not_empty(path.drop_last());
    }
}

proof fn lemma_join_extend_last(parts: Seq<Seq<char>>, separator: Seq<char>, c: char)
    requires
        parts.len() >= 1,
    ensures
        join(parts.update(parts.len() - 1, parts.last().push(c)), separator) == join(
            parts,
            separator,
        ).push(c),
{
    let longer = parts.update(parts.len() - 1, parts.last().push(c));
    if parts.len() > 1 {
        assert(longer.drop_last() =~= parts.drop_last());
    }
}

proof fn lemma_join_push_empty(parts: Seq<Seq<char>>, separator: Seq<char>)
    requires
        parts.len() >= 1,
    ensures
        join(parts.push(Seq::<char>::empty()), separator) == join(parts, separator) + separator,
{
    assert(parts.push(Seq::<char>::empty()).drop_last() =~= parts);
    assert(join(parts, separator) + separator + Seq::<char>::empty() =~= join(parts, separator)
        + separator);
}

proof fn lemma_join_split(path: Seq<char>, separator: Seq<char>)
    ensures
        join(split_at_slashes(path), separator) == replace_separators(path, separator),
    decreases path.len(),
{
    if path.len() > 0 {
        lemma_join_split(path.drop_last(), separator);
        lemma_split_not_empty(path.drop_last());
        if path.last() == '/' {
            lemma_join_push_empty(split_at_slashes(path.drop_last()), separator);
        } else {
            lemma_join_extend_last(split_at_slashes(path.drop_last()), separator, path.last());
        }
    }
}

/// Joining the components of a path with a separator is the path, less a
/// '/' that ends it, with every '/' replaced by that separator.
pub proof fn lemma_join_components(path: Seq<char>, separator: Seq<char>)
    ensures
        join(components(path), separator) == replace_separators(
            trim_trailing_slash(path),
            separator,
        ),
{
    lemma_join_split(trim_trailing_slash(path), separator);
}

/// Joining the components of a path that does not end in '/' with '/'
/// gives the path back.
pub proof fn lemma_join_slash_is_identity(path: Seq<char>)
    requires
        path.len() == 0 || path.last() != '/',
    ensures
        join(components(path), seq!['/']) == path,
{
    lemma_join_components(path, seq!['/']);
    lemma_replace_slash(path);
}

proof fn lemma_split_extend(path: Seq<char>, c: Seq<char>)
    requires
        forall|i: int| 0 <= i < c.len() ==> c[i] != '/',
    ensures
        split_at_slashes(path + c) == split_at_slashes(path).update(
            split_at_slashes(path).len() - 1,
            split_at_slashes(path).last() + c,
        ),
    decreases c.len(),
{
    lemma_split_not_empty(path);
    if c.len() == 0 {
        assert(path + c =~= path);
        assert(split_at_slashes(path).last() + c =~= split_at_slashes(path).last());
        assert(split_at_slashes(path).update(
            split_at_slashes(path).len() - 1,
            split_at_slashes(path).last(),
        ) =~= split_at_slashes(path));
    } else {
        let front = c.drop_last();
        lemma_split_extend(path, front);
        assert((path + c).drop_last() =~= path + front);
        assert(split_at_slashes(path).last() + front + seq![c.last()] =~= split_at_slashes(
            path,
        ).last() + c);
        assert((split_at_slashes(path).last() + front).push(c.last())
            =~= split_at_slashes(path).last() + c);
        let s = split_at_slashes(path);
        assert(s.update(s.len() - 1, s.last() + front).update(
            s.len() - 1,
            (s.last() + front).push(c.last()),
        ) =~= s.update(s.len() - 1, s.last() + c));
    }
}

/// Appending one component to a non-empty path appends that component to
/// its components, and the separator and the component to their join. "/"
/// followed by "c" is "/c", whose components are the root and "c".
pub proof fn lemma_push_component(path: Seq<char>, c: Seq<char>, separator: Seq<char>)
    requires
        path.len() > 0,
        c.len() > 0,
        forall|i: int| 0 <= i < c.len() ==> c[i] != '/',
    ensures
        components(trim_trailing_slash(path) + seq!['/'] + c) == components(path).push(c),
        join(components(trim_trailing_slash(path) + seq!['/'] + c), separator) == join(
            components(path),
            separator,
        ) + separator + c,
{
    let base = trim_trailing_slash(path);
    let slashed = base + seq!['/'];
    let longer = slashed + c;
    assert(longer.last() == c.last());
    assert(trim_trailing_slash(longer) == longer);
    assert(slashed.drop_last() =~= base);
    lemma_split_not_empty(base);
    lemma_split_extend(slashed, c);
    let parts = split_at_slashes(slashed);
    assert(Seq::<char>::empty() + c =~= c);
    assert(parts.update(parts.len() - 1, parts.last() + c) =~= split_at_slashes(base).push(c));
    assert(split_at_slashes(base).push(c).drop_last() =~= split_at_slashes(base));
}

proof fn lemma_replace_slash(path: Seq<char>)
    ensures
        replace_separators(path, seq!['/']) == path,
    decreases path.len(),
{
    if path.len() > 0 {
        lemma_replace_slash(path.drop_last());
        assert(path.drop_last().push(path.last()) =~= path);
        assert(path.drop_last() + seq!['/'] =~= path.drop_last().push('/'));
    }
}

/// The components of `path` joined with `separator`.
pub fn join_separators(path: &str, separator: &str) -> (r: String)
    ensures
        r@ == join(components(path@), separator@),
{
    let len = path.unicode_len();
    let n = if len > 0 && path.get_char(len - 1) == '/' {
        len - 1
    } else {
        len
    };
    let ghost kept = trim_trailing_slash(path@);
    assert(kept =~= path@.subrange(0, n as int));
    let mut r = String::new();
    let mut i: usize = 0;
    while i < n
        invariant
            n == kept.len(),
            n <= path@.len(),
            kept == path@.subrange(0, n as int),
            i <= n,
            r@ == replace_separators(path@.subrange(0, i as int), separator@),
        decreases n - i,
    {
        let ghost before = path@.subrange(0, i as int);
        assert(path@.subrange(0, i as int + 1).drop_last() =~= before);
        let c = path.get_char(i);
        if c == '/' {
            r.append(separator);
        } else {
            let piece = path.substring_char(i, i + 1);
            assert(r@ + piece@ =~= r@.push(c));
            r.append(piece);
        }
        i = i + 1;
    }
    proof {
        lemma_join_components(path@, separator@);
    }
    r
}

} // verus!
