//! Configuration of the backend.
//!
//! Every field comes from an environment variable, so that the plugin can be
//! started as a child process without arguments. Loading is lenient: every
//! field has a default, and it fails only on a value that is outright invalid,
//! such as an empty list of kinds.

use crate::text::{contains_text, debug_text, same_text, trim_text};
use crate::text::law_pieces_lie_between_separators;
use crate::text::{lowered, opt_text, pieces, quoted, texts, trimmed};
use vstd::prelude::*;

verus! {

/// Environment variable that holds the path of the database.
pub const ENV_DB_PATH: &'static str = "ANIMUS_SQLITE_DB_PATH";

/// Environment variable that holds the comma-separated list of kinds that the
/// backend serves.
pub const ENV_KINDS: &'static str = "ANIMUS_SQLITE_KINDS";

/// Environment variable that says whether to migrate the database on startup.
pub const ENV_AUTO_MIGRATE: &'static str = "ANIMUS_SQLITE_AUTO_MIGRATE";

/// Path of the database when [`ENV_DB_PATH`] is unset, relative to the current
/// directory.
pub const DEFAULT_DB_PATH: &'static str = ".animus/subjects/sqlite.db";

/// Kind that the backend serves when [`ENV_KINDS`] is unset.
pub const DEFAULT_KIND: &'static str = "task";

/// Why a configuration cannot be loaded.
#[derive(Debug, PartialEq, Eq)]
pub enum ConfigError {
    /// The list of kinds names no kind.
    NoKinds,
    /// The text, trimmed and in lower case, is not a boolean.
    NotABoolean(String),
}

/// What a [`ConfigError`] stands for.
pub enum ConfigErrorView {
    NoKinds,
    NotABoolean(Seq<char>),
}

impl View for ConfigError {
    type V = ConfigErrorView;

    open spec fn view(&self) -> ConfigErrorView {
        match self {
            ConfigError::NoKinds => ConfigErrorView::NoKinds,
            ConfigError::NotABoolean(word) => ConfigErrorView::NotABoolean(word@),
        }
    }
}

impl ConfigError {
    /// The error in words.
    pub fn message(&self) -> (r: String)
        ensures
            r@ == match self@ {
                ConfigErrorView::NoKinds =>
                    "ANIMUS_SQLITE_KINDS must be a non-empty comma-separated list"@,
                ConfigErrorView::NotABoolean(word) =>
                    "ANIMUS_SQLITE_AUTO_MIGRATE must be a boolean ("@ + quoted(word) + ")"@,
            },
    {
        match self {
            ConfigError::NoKinds =>
                "ANIMUS_SQLITE_KINDS must be a non-empty comma-separated list".to_owned(),
            ConfigError::NotABoolean(word) =>
                "ANIMUS_SQLITE_AUTO_MIGRATE must be a boolean (".to_owned().concat(
                debug_text(word.as_str()).as_str(),
            ).concat(")"),
        }
    }
}

/// Configuration of the backend.
#[derive(Debug, PartialEq, Eq)]
pub struct SqliteConfig {
    /// Path of the database file, which is created on first use.
    pub db_path: String,
    /// Kinds that the backend serves; a subject of another kind is not created.
    pub kinds: Vec<String>,
    /// Whether to migrate the database on startup.
    pub auto_migrate: bool,
}

/// What a [`SqliteConfig`] stands for.
#[verifier::ext_equal]
pub struct ConfigView {
    pub db_path: Seq<char>,
    pub kinds: Seq<Seq<char>>,
    pub auto_migrate: bool,
}

impl View for SqliteConfig {
    type V = ConfigView;

    open spec fn view(&self) -> ConfigView {
        ConfigView {
            db_path: self.db_path@,
            kinds: texts(self.kinds@),
            auto_migrate: self.auto_migrate,
        }
    }
}

impl ConfigView {
    /// Whether the backend serves at least one kind.
    pub open spec fn well_formed(self) -> bool {
        self.kinds.len() > 0
    }
}

/// The kinds that a comma-separated list names: its pieces without the white
/// space round them, except for the empty ones.
pub open spec fn kinds_in(raw: Seq<char>) -> Seq<Seq<char>> {
    kept_kinds(pieces(raw, ','))
}

/// The kinds that the pieces of a list name.
pub open spec fn kept_kinds(list: Seq<Seq<char>>) -> Seq<Seq<char>> {
    list.map_values(|piece: Seq<char>| trimmed(piece)).filter(|kind: Seq<char>| kind.len() > 0)
}

/// The boolean that a word stands for.
pub open spec fn bool_of_word(word: Seq<char>) -> Option<bool> {
    if word == "1"@ || word == "true"@ || word == "yes"@ || word == "on"@ {
        Some(true)
    } else if word == "0"@ || word == "false"@ || word == "no"@ || word == "off"@ {
        Some(false)
    } else {
        None
    }
}

/// What a text says as a boolean: white space round it and letter case do not
/// count.
pub open spec fn bool_in(raw: Seq<char>) -> Option<bool> {
    bool_of_word(lowered(trimmed(raw)))
}

/// `value`, unless it is empty.
pub open spec fn given(value: Option<Seq<char>>) -> Option<Seq<char>> {
    match value {
        Some(text) if text.len() > 0 => Some(text),
        _ => None,
    }
}

/// The configuration that the values of the three environment variables make.
pub open spec fn config_from(
    db_path: Option<Seq<char>>,
    kinds: Option<Seq<char>>,
    auto_migrate: Option<Seq<char>>,
) -> Result<ConfigView, ConfigErrorView> {
    if kinds matches Some(raw) && kinds_in(raw).len() == 0 {
        Err(ConfigErrorView::NoKinds)
    } else if given(auto_migrate) matches Some(raw) && bool_in(raw) is None {
        Err(ConfigErrorView::NotABoolean(lowered(trimmed(auto_migrate->0))))
    } else {
        Ok(
            ConfigView {
                db_path: match given(db_path) {
                    Some(path) => path,
                    None => DEFAULT_DB_PATH@,
                },
                kinds: match kinds {
                    Some(raw) => kinds_in(raw),
                    None => seq![DEFAULT_KIND@],
                },
                auto_migrate: match given(auto_migrate) {
                    Some(raw) => bool_in(raw)->0,
                    None => true,
                },
            },
        )
    }
}

/// A configuration with the given kinds; an empty list changes nothing.
pub open spec fn serving(config: ConfigView, kinds: Seq<Seq<char>>) -> ConfigView {
    ConfigView {
        kinds: if kinds.len() == 0 {
            config.kinds
        } else {
            kinds
        },
        ..config
    }
}

/// Kinds that are given are served, just those and in their order; none given
/// leaves the kinds as they are; nothing else changes, and kinds that are given
/// twice are those that were given last.
pub proof fn law_given_kinds_are_served(
    config: ConfigView,
    kinds: Seq<Seq<char>>,
    before: Seq<Seq<char>>,
)
    ensures
        kinds.len() > 0 ==> serving(config, kinds).kinds == kinds,
        kinds.len() == 0 ==> serving(config, kinds).kinds == config.kinds,
        serving(config, kinds).db_path == config.db_path,
        serving(config, kinds).auto_migrate == config.auto_migrate,
        kinds.len() > 0 ==> serving(serving(config, before), kinds) == serving(config, kinds),
        config.well_formed() ==> serving(config, kinds).well_formed(),
{
}

/// A list of kinds names those that its parts between commas name; a part names
/// itself without the white space round it, or nothing if nothing is left.
pub proof fn law_kinds_stand_between_commas(a: Seq<char>, b: Seq<char>)
    ensures
        kinds_in(a + seq![','] + b) == kinds_in(a) + kinds_in(b),
        !b.contains(',') && trimmed(b).len() > 0 ==> kinds_in(b) == seq![trimmed(b)],
        !b.contains(',') && trimmed(b).len() == 0 ==> kinds_in(b).len() == 0,
{
    law_pieces_lie_between_separators(a, b, ',');
    let trim = |piece: Seq<char>| trimmed(piece);
    let keep = |kind: Seq<char>| kind.len() > 0;
    let p = pieces(a, ',').map_values(trim);
    let q = pieces(b, ',').map_values(trim);
    assert((pieces(a, ',') + pieces(b, ',')).map_values(trim) == p + q);
    Seq::filter_distributes_over_add(p, q, keep);
    if !b.contains(',') {
        reveal(Seq::filter);
        assert(q == seq![trimmed(b)]);
        assert(q.drop_last() == Seq::<Seq<char>>::empty());
        reveal_with_fuel(Seq::filter, 2);
        if trimmed(b).len() > 0 {
            assert(q.filter(keep) == seq![trimmed(b)]);
        }
    }
}

/// Eight words are booleans, in any case and with white space round them, and
/// nothing else is.
pub proof fn law_booleans_are_eight_words(raw: Seq<char>)
    ensures
        ({
            let word = lowered(trimmed(raw));
            let yes = seq!["1"@, "true"@, "yes"@, "on"@];
            let no = seq!["0"@, "false"@, "no"@, "off"@];
            &&& bool_in(raw) == Some(true) <==> yes.contains(word)
            &&& bool_in(raw) == Some(false) <==> no.contains(word)
        }),
{
    let word = lowered(trimmed(raw));
    let yes = seq!["1"@, "true"@, "yes"@, "on"@];
    let no = seq!["0"@, "false"@, "no"@, "off"@];
    assert(yes[0] == "1"@ && yes[1] == "true"@ && yes[2] == "yes"@ && yes[3] == "on"@);
    assert(no[0] == "0"@ && no[1] == "false"@ && no[2] == "no"@ && no[3] == "off"@);
    reveal_strlit("1");
    reveal_strlit("true");
    reveal_strlit("yes");
    reveal_strlit("on");
    reveal_strlit("0");
    reveal_strlit("false");
    reveal_strlit("no");
    reveal_strlit("off");
    assert("1"@[0] == '1' && "true"@[0] == 't' && "yes"@[0] == 'y' && "on"@[1] == 'n');
    assert("0"@[0] == '0' && "false"@[0] == 'f' && "no"@[0] == 'n' && "off"@[1] == 'f');
    assert("on"@.len() == 2 && "off"@.len() == 3 && "on"@[0] == 'o');
}

/// Each variable decides its own field: a path that is not empty is taken, kinds
/// that are set are those that the list names, a flag that is not empty is read;
/// what is not set has its default. Loading fails if and only if kinds are set
/// and name none, or the flag is no boolean.
pub proof fn law_variables_decide_their_fields(
    db_path: Option<Seq<char>>,
    kinds: Option<Seq<char>>,
    auto_migrate: Option<Seq<char>>,
)
    ensures
        ({
            let loaded = config_from(db_path, kinds, auto_migrate);
            let no_kinds = kinds matches Some(raw) && kinds_in(raw).len() == 0;
            let no_flag = auto_migrate matches Some(raw) && raw.len() > 0 && bool_in(raw) is None;
            &&& loaded is Err <==> no_kinds || no_flag
            &&& no_kinds ==> loaded->Err_0 is NoKinds
            &&& !no_kinds && no_flag ==> loaded->Err_0 == ConfigErrorView::NotABoolean(
                lowered(trimmed(auto_migrate->0)),
            )
            &&& loaded matches Ok(config) ==> {
                &&& config.kinds.len() > 0
                &&& db_path matches Some(path) ==> path.len() > 0 ==> config.db_path == path
                &&& db_path is None || db_path->0.len() == 0 ==> config.db_path
                    == ".animus/subjects/sqlite.db"@
                &&& kinds matches Some(raw) ==> config.kinds == kinds_in(raw)
                &&& kinds is None ==> config.kinds == seq!["task"@]
                &&& auto_migrate is None || auto_migrate->0.len() == 0 ==> config.auto_migrate
                &&& auto_migrate matches Some(raw) ==> raw.len() > 0 ==> bool_in(raw) == Some(
                    config.auto_migrate,
                )
            }
        }),
{
}

impl SqliteConfig {
    /// The configuration that the values of [`ENV_DB_PATH`], [`ENV_KINDS`] and
    /// [`ENV_AUTO_MIGRATE`] make. A variable that is unset leaves the default,
    /// and so does an empty path or an empty flag.
    pub fn from_env(
        db_path: Option<String>,
        kinds: Option<String>,
        auto_migrate: Option<String>,
    ) -> (r: Result<Self, ConfigError>)
        ensures
            match (r, config_from(opt_text(db_path), opt_text(kinds), opt_text(auto_migrate))) {
                (Ok(config), Ok(expected)) => config@ == expected && config@.well_formed(),
                (Err(error), Err(expected)) => error@ == expected,
                _ => false,
            },
    {
        let path = match db_path {
            Some(text) => {
                if text.as_str().is_empty() {
                    DEFAULT_DB_PATH.to_owned()
                } else {
                    text
                }
            },
            None => DEFAULT_DB_PATH.to_owned(),
        };
        let served = match kinds {
            Some(raw) => match parse_kinds(raw.as_str()) {
                Ok(list) => list,
                Err(error) => return Err(error),
            },
            None => vec![DEFAULT_KIND.to_owned()],
        };
        let migrate: bool = match auto_migrate {
            Some(raw) => {
                if raw.as_str().is_empty() {
                    true
                } else {
                    match parse_bool(raw.as_str()) {
                        Ok(flag) => flag,
                        Err(error) => return Err(error),
                    }
                }
            },
            None => true,
        };
        let config = SqliteConfig { db_path: path, kinds: served, auto_migrate: migrate };
        assert(kinds is None ==> config@.kinds == seq![DEFAULT_KIND@]);
        Ok(config)
    }

    /// The default configuration, with the given path.
    pub fn new(db_path: &str) -> (r: Self)
        ensures
            r@ == (ConfigView {
                db_path: db_path@,
                kinds: seq![DEFAULT_KIND@],
                auto_migrate: true,
            }),
            r@.well_formed(),
    {
        let r = SqliteConfig {
            db_path: db_path.to_owned(),
            kinds: vec![DEFAULT_KIND.to_owned()],
            auto_migrate: true,
        };
        assert(r@.kinds == seq![DEFAULT_KIND@]);
        r
    }

    /// The configuration with the given kinds. An empty list changes nothing,
    /// so that the backend always serves at least one kind.
    pub fn with_kinds(self, kinds: Vec<String>) -> (r: Self)
        ensures
            r@ == serving(self@, texts(kinds@)),
            self@.well_formed() ==> r@.well_formed(),
    {
        if kinds.len() == 0 {
            self
        } else {
            SqliteConfig { db_path: self.db_path, kinds, auto_migrate: self.auto_migrate }
        }
    }

    /// The configuration with the given migration flag.
    pub fn with_auto_migrate(self, auto_migrate: bool) -> (r: Self)
        ensures
            r@ == (ConfigView { auto_migrate, ..self@ }),
            self@.well_formed() ==> r@.well_formed(),
    {
        SqliteConfig { db_path: self.db_path, kinds: self.kinds, auto_migrate }
    }

    /// Whether the backend serves `kind`.
    pub fn accepts_kind(&self, kind: &str) -> (r: bool)
        ensures
            r == self@.kinds.contains(kind@),
    {
        contains_text(&self.kinds, kind)
    }
}

/// The kinds that a comma-separated list names; there must be at least one.
pub fn parse_kinds(raw: &str) -> (r: Result<Vec<String>, ConfigError>)
    ensures
        match r {
            Ok(kinds) => texts(kinds@) == kinds_in(raw@) && kinds@.len() > 0,
            Err(error) => error@ is NoKinds && kinds_in(raw@).len() == 0,
        },
{
    let chars = crate::text::chars_of(raw);
    let mut kinds: Vec<String> = Vec::new();
    let mut start: usize = 0;
    let mut i: usize = 0;
    assert(chars@.take(0) == Seq::<char>::empty());
    assert(chars@.subrange(0, 0) == Seq::<char>::empty());
    assert(seq![Seq::<char>::empty()].drop_last() == Seq::<Seq<char>>::empty());
    while i < chars.len()
        invariant
            chars@ == raw@,
            start <= i <= chars@.len(),
            pieces(chars@.take(i as int), ',').len() > 0,
            pieces(chars@.take(i as int), ',').last() == chars@.subrange(start as int, i as int),
            texts(kinds@) == kept_kinds(pieces(chars@.take(i as int), ',').drop_last()),
        decreases chars@.len() - i,
    {
        let ghost before = pieces(chars@.take(i as int), ',');
        let ghost after = pieces(chars@.take(i + 1), ',');
        assert(chars@.take(i + 1).drop_last() == chars@.take(i as int));
        if chars[i] == ',' {
            keep_kind(&mut kinds, raw.substring_char(start, i));
            assert(after.drop_last() == before);
            proof {
                lemma_kept_kinds_push(before.drop_last(), before.last());
            }
            assert(before.drop_last().push(before.last()) == before);
            start = i + 1;
            assert(chars@.subrange(start as int, i + 1) == Seq::<char>::empty());
        } else {
            assert(after.drop_last() == before.drop_last());
            assert(chars@.subrange(start as int, i + 1) == chars@.subrange(
                start as int,
                i as int,
            ).push(chars@[i as int]));
        }
        i = i + 1;
    }
    assert(chars@.take(i as int) == raw@);
    let ghost all = pieces(raw@, ',');
    keep_kind(&mut kinds, raw.substring_char(start, i));
    proof {
        lemma_kept_kinds_push(all.drop_last(), all.last());
    }
    assert(all.drop_last().push(all.last()) == all);
    if kinds.len() == 0 {
        Err(ConfigError::NoKinds)
    } else {
        Ok(kinds)
    }
}

/// Adds the kind that one piece of a list names, if it names one.
fn keep_kind(kinds: &mut Vec<String>, piece: &str)
    ensures
        texts(final(kinds)@) == if trimmed(piece@).len() > 0 {
            texts(old(kinds)@).push(trimmed(piece@))
        } else {
            texts(old(kinds)@)
        },
{
    let kind = trim_text(piece);
    if !kind.is_empty() {
        kinds.push(kind.to_owned());
        assert(texts(kinds@) == texts(old(kinds)@).push(trimmed(piece@)));
    }
}

proof fn lemma_kept_kinds_push(list: Seq<Seq<char>>, piece: Seq<char>)
    ensures
        kept_kinds(list.push(piece)) == if trimmed(piece).len() > 0 {
            kept_kinds(list).push(trimmed(piece))
        } else {
            kept_kinds(list)
        },
{
    let trim = |p: Seq<char>| trimmed(p);
    let named = |kind: Seq<char>| kind.len() > 0;
    assert(list.push(piece).map_values(trim) == list.map_values(trim).push(trimmed(piece)));
    assert(list.map_values(trim).push(trimmed(piece)).drop_last() == list.map_values(trim));
    reveal(Seq::filter);
}

/// What a text says as a boolean.
pub fn parse_bool(raw: &str) -> (r: Result<bool, ConfigError>)
    ensures
        match r {
            Ok(flag) => bool_in(raw@) == Some(flag),
            Err(error) => bool_in(raw@) is None && error@ == ConfigErrorView::NotABoolean(
                lowered(trimmed(raw@)),
            ),
        },
{
    let word = trim_text(raw).to_ascii_lowercase();
    let w = word.as_str();
    if same_text(w, "1") || same_text(w, "true") || same_text(w, "yes") || same_text(w, "on") {
        Ok(true)
    } else if same_text(w, "0") || same_text(w, "false") || same_text(w, "no") || same_text(
        w,
        "off",
    ) {
        Ok(false)
    } else {
        Err(ConfigError::NotABoolean(word))
    }
}

} // verus!
