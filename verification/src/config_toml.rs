use vstd::prelude::*;
use vstd::string::StringSliceAdditionalSpecFns;
use crate::cli::{opt_strings, Args, ArgsError};
use crate::config::{
    Account, Config, Dapps, Footprint, Ipc, Mining, Misc, Network, Operating, Rpc, Signer,
    Snapshots, VM,
};

verus! {

/// A value of a TOML text. Of numbers with a fraction and of dates only the
/// kind is kept.
#[derive(Debug)]
pub enum TomlValue {
    String(String),
    Integer(i64),
    Float,
    Boolean(bool),
    Datetime,
    Array(Vec<TomlValue>),
    Table(Vec<(String, TomlValue)>),
}

#[verifier::external_type_specification]
#[verifier::external_body]
pub struct ExValue(toml::Value);

/// What the TOML parser makes of a text, where the text is valid TOML.
pub uninterp spec fn toml_outcome(text: Seq<char>) -> Option<TomlValue>;

/// Tells the variants of `toml::Value` apart, through arrays and tables: as
/// deep as the value nests, which is no deeper than the text that the parser
/// was handed.
#[verifier::external_body]
fn toml_convert(v: &toml::Value) -> (r: TomlValue) {
    match v {
        toml::Value::String(s) => TomlValue::String(s.clone()),
        toml::Value::Integer(i) => TomlValue::Integer(*i),
        toml::Value::Float(_) => TomlValue::Float,
        toml::Value::Boolean(b) => TomlValue::Boolean(*b),
        toml::Value::Datetime(_) => TomlValue::Datetime,
        toml::Value::Array(a) => TomlValue::Array(a.iter().map(toml_convert).collect()),
        toml::Value::Table(t) => TomlValue::Table(
            t.iter().map(|(k, v)| (k.clone(), toml_convert(v))).collect(),
        ),
    }
}

/// The most opening brackets, opening braces and dots that a text may hold
/// to be handed to the parser.
pub const MAX_MARKS: usize = 256;

/// Whether a byte opens an array, opens a table or parts a key: `[`, `{` or `.`.
pub open spec fn is_mark(b: u8) -> bool {
    b == 0x5b || b == 0x7b || b == 0x2e
}

/// The number of such bytes. Arrays and tables nest no deeper than this,
/// since each level takes one of them.
pub open spec fn marks(bytes: Seq<u8>) -> nat
    decreases bytes.len(),
{
    if bytes.len() == 0 {
        0
    } else {
        marks(bytes.drop_last()) + if is_mark(bytes.last()) {
            1nat
        } else {
            0nat
        }
    }
}

/// Whether a text holds few enough of these bytes to be handed to the parser.
pub open spec fn shallow(bytes: Seq<u8>) -> bool {
    marks(bytes) <= MAX_MARKS
}

/// The first bytes of a text hold no more of these bytes than the whole.
pub proof fn lemma_marks_grow(bytes: Seq<u8>, i: int)
    requires
        0 <= i <= bytes.len(),
    ensures
        marks(bytes.take(i)) <= marks(bytes),
    decreases bytes.len() - i,
{
    if i < bytes.len() {
        lemma_marks_grow(bytes, i + 1);
        assert(bytes.take(i + 1).drop_last() =~= bytes.take(i));
    } else {
        assert(bytes.take(i) =~= bytes);
    }
}

/// Counts the bytes that open an array, open a table or part a key, and
/// tells whether they are few enough for the text to be handed to the parser.
pub fn is_shallow(text: &str) -> (r: bool)
    ensures
        r == shallow(text.spec_bytes()),
{
    let bytes = text.as_bytes();
    let mut count: usize = 0;
    let mut i: usize = 0;
    assert(bytes@.take(0) =~= Seq::<u8>::empty());
    while i < bytes.len()
        invariant
            i <= bytes@.len(),
            bytes@ == text.spec_bytes(),
            count == marks(bytes@.take(i as int)),
            count <= MAX_MARKS,
        decreases bytes@.len() - i,
    {
        let b = bytes[i];
        proof {
            assert(bytes@.take(i + 1).drop_last() =~= bytes@.take(i as int));
            assert(bytes@.take(i + 1).last() == b);
        }
        if b == 0x5b || b == 0x7b || b == 0x2e {
            if count == MAX_MARKS {
                proof {
                    lemma_marks_grow(bytes@, i + 1);
                }
                return false;
            }
            count = count + 1;
        }
        i = i + 1;
    }
    assert(bytes@.take(bytes@.len() as int) =~= bytes@);
    true
}

/// `str::parse` for a `toml::Value`; an error is handed on as the text that
/// it displays. The parser calls itself once for each level of arrays and
/// tables, so only a text that `shallow` admits is handed to it.
#[verifier::external_body]
fn toml_parse(text: &str) -> (r: Result<TomlValue, String>)
    requires
        shallow(text.spec_bytes()),
    ensures
        match r {
            Ok(v) => toml_outcome(text@) == Some(v),
            Err(_) => toml_outcome(text@).is_none(),
        },
{
    match text.parse::<toml::Value>() {
        Ok(v) => Ok(toml_convert(&v)),
        Err(e) => Err(format!("{}", e)),
    }
}

/// The value that stands first under `name` in a table, if one does.
pub open spec fn entry(t: Seq<(String, TomlValue)>, name: Seq<char>) -> Option<TomlValue>
    decreases t.len(),
{
    if t.len() == 0 {
        None
    } else if t[0].0@ == name {
        Some(t[0].1)
    } else {
        entry(t.subrange(1, t.len() as int), name)
    }
}

/// The text under `name`: none where nothing stands there, an error where
/// something else than a text does.
pub open spec fn text_entry(t: Seq<(String, TomlValue)>, name: Seq<char>) -> Result<
    Option<String>,
    (),
> {
    match entry(t, name) {
        None => Ok(None),
        Some(TomlValue::String(s)) => Ok(Some(s)),
        Some(_) => Err(()),
    }
}

/// The switch under `name`: none where nothing stands there, an error where
/// something else than a truth value does.
pub open spec fn flag_entry(t: Seq<(String, TomlValue)>, name: Seq<char>) -> Result<
    Option<bool>,
    (),
> {
    match entry(t, name) {
        None => Ok(None),
        Some(TomlValue::Boolean(b)) => Ok(Some(b)),
        Some(_) => Err(()),
    }
}

/// The number under `name`: none where nothing stands there, an error where
/// something else than a whole number from zero to `max` does.
pub open spec fn number_entry(t: Seq<(String, TomlValue)>, name: Seq<char>, max: u64) -> Result<
    Option<u64>,
    (),
> {
    match entry(t, name) {
        None => Ok(None),
        Some(TomlValue::Integer(i)) => if 0 <= i && i <= max {
            Ok(Some(i as u64))
        } else {
            Err(())
        },
        Some(_) => Err(()),
    }
}

/// Whether every value is a text.
pub open spec fn all_texts(items: Seq<TomlValue>) -> bool {
    forall|i: int| 0 <= i < items.len() ==> #[trigger] items[i] is String
}

/// The texts of values that are texts.
pub open spec fn texts_of(items: Seq<TomlValue>) -> Seq<Seq<char>> {
    Seq::new(items.len(), |i: int| items[i]->String_0@)
}

/// The texts under `name`: none where nothing stands there, an error where
/// something else than an array of texts does.
pub open spec fn texts_entry(t: Seq<(String, TomlValue)>, name: Seq<char>) -> Result<
    Option<Seq<Seq<char>>>,
    (),
> {
    match entry(t, name) {
        None => Ok(None),
        Some(TomlValue::Array(items)) => if all_texts(items@) {
            Ok(Some(texts_of(items@)))
        } else {
            Err(())
        },
        Some(_) => Err(()),
    }
}

/// Looks for the value that stands first under `name`.
pub fn find_entry<'a>(t: &'a Vec<(String, TomlValue)>, name: &str) -> (r: Option<&'a TomlValue>)
    ensures
        match r {
            Some(v) => entry(t@, name@) == Some(*v),
            None => entry(t@, name@).is_none(),
        },
{
    let key = name.to_owned();
    let mut i: usize = 0;
    assert(t@.subrange(0, t@.len() as int) =~= t@);
    while i < t.len()
        invariant
            i <= t@.len(),
            key@ == name@,
            entry(t@, name@) == entry(t@.subrange(i as int, t@.len() as int), name@),
        decreases t@.len() - i,
    {
        let ghost rest = t@.subrange(i as int, t@.len() as int);
        assert(rest[0] == t@[i as int]);
        if t[i].0 == key {
            return Some(&t[i].1);
        }
        assert(rest.subrange(1, rest.len() as int) =~= t@.subrange(i + 1, t@.len() as int));
        i = i + 1;
    }
    None
}

/// Reads the text under `name`: see `text_entry`.
pub fn text_value(t: &Vec<(String, TomlValue)>, name: &str) -> (r: Result<Option<String>, ArgsError>)
    ensures
        match r {
            Ok(v) => text_entry(t@, name@) == Ok::<Option<String>, ()>(v),
            Err(e) => text_entry(t@, name@).is_err() && e is Decode,
        },
{
    match find_entry(t, name) {
        None => Ok(None),
        Some(TomlValue::String(s)) => Ok(Some(s.clone())),
        Some(_) => Err(ArgsError::Decode(name.to_owned())),
    }
}

/// Reads the switch under `name`: see `flag_entry`.
pub fn flag_value(t: &Vec<(String, TomlValue)>, name: &str) -> (r: Result<Option<bool>, ArgsError>)
    ensures
        match r {
            Ok(v) => flag_entry(t@, name@) == Ok::<Option<bool>, ()>(v),
            Err(e) => flag_entry(t@, name@).is_err() && e is Decode,
        },
{
    match find_entry(t, name) {
        None => Ok(None),
        Some(TomlValue::Boolean(b)) => Ok(Some(*b)),
        Some(_) => Err(ArgsError::Decode(name.to_owned())),
    }
}

/// Reads the number under `name`: see `number_entry`.
pub fn number_value(t: &Vec<(String, TomlValue)>, name: &str, max: u64) -> (r: Result<
    Option<u64>,
    ArgsError,
>)
    requires
        max <= 0x7fff_ffff_ffff_ffff,
    ensures
        match r {
            Ok(v) => number_entry(t@, name@, max) == Ok::<Option<u64>, ()>(v),
            Err(e) => number_entry(t@, name@, max).is_err() && e is Decode,
        },
{
    match find_entry(t, name) {
        None => Ok(None),
        Some(TomlValue::Integer(i)) => {
            if 0 <= *i && *i as u64 <= max {
                Ok(Some(*i as u64))
            } else {
                Err(ArgsError::Decode(name.to_owned()))
            }
        },
        Some(_) => Err(ArgsError::Decode(name.to_owned())),
    }
}

/// Reads the texts under `name`: see `texts_entry`.
pub fn texts_value(t: &Vec<(String, TomlValue)>, name: &str) -> (r: Result<
    Option<Vec<String>>,
    ArgsError,
>)
    ensures
        match r {
            Ok(v) => texts_entry(t@, name@) == Ok::<Option<Seq<Seq<char>>>, ()>(opt_strings(v)),
            Err(e) => texts_entry(t@, name@).is_err() && e is Decode,
        },
{
    match find_entry(t, name) {
        None => Ok(None),
        Some(TomlValue::Array(items)) => {
            let mut texts: Vec<String> = Vec::new();
            let mut i: usize = 0;
            while i < items.len()
                invariant
                    i <= items@.len(),
                    texts@.len() == i,
                    entry(t@, name@) == Some(TomlValue::Array(*items)),
                    forall|j: int| 0 <= j < i ==> #[trigger] items@[j] is String,
                    forall|j: int| 0 <= j < i ==> #[trigger] texts@[j]@ == items@[j]->String_0@,
                decreases items@.len() - i,
            {
                match &items[i] {
                    TomlValue::String(s) => {
                        texts.push(s.clone());
                    },
                    _ => {
                        assert(!(items@[i as int] is String));
                        return Err(ArgsError::Decode(name.to_owned()));
                    },
                }
                i = i + 1;
            }
            assert(crate::cli::strings(texts@) =~= texts_of(items@));
            Ok(Some(texts))
        },
        Some(_) => Err(ArgsError::Decode(name.to_owned())),
    }
}

/// A number that is known to fit, as a `u16`.
fn narrow_u16(v: Option<u64>) -> (r: Option<u16>)
    requires
        v.is_some() ==> v.unwrap() <= 0xffff,
    ensures
        r == (match v {
            Some(n) => Some(n as u16),
            None => None::<u16>,
        }),
{
    match v {
        Some(n) => Some(n as u16),
        None => None,
    }
}

/// A number that is known to fit, as a `u32`.
fn narrow_u32(v: Option<u64>) -> (r: Option<u32>)
    requires
        v.is_some() ==> v.unwrap() <= 0xffff_ffff,
    ensures
        r == (match v {
            Some(n) => Some(n as u32),
            None => None::<u32>,
        }),
{
    match v {
        Some(n) => Some(n as u32),
        None => None,
    }
}

/// A number that is known to fit, as a `usize`.
fn narrow_usize(v: Option<u64>) -> (r: Option<usize>)
    requires
        v.is_some() ==> v.unwrap() <= 0xffff_ffff,
    ensures
        r == (match v {
            Some(n) => Some(n as usize),
            None => None::<usize>,
        }),
{
    match v {
        Some(n) => Some(n as usize),
        None => None,
    }
}

impl Operating {
    /// Whether every setting of this part that a table holds is of its kind.
    pub open spec fn typed(t: Seq<(String, TomlValue)>) -> bool {
        &&& text_entry(t, "mode"@).is_ok()
        &&& number_entry(t, "mode_timeout"@, 0x7fff_ffff_ffff_ffff).is_ok()
        &&& number_entry(t, "mode_alarm"@, 0x7fff_ffff_ffff_ffff).is_ok()
        &&& text_entry(t, "chain"@).is_ok()
        &&& text_entry(t, "db_path"@).is_ok()
        &&& text_entry(t, "keys_path"@).is_ok()
        &&& text_entry(t, "identity"@).is_ok()
    }

    /// Whether `self` holds the settings of this part that a table holds.
    pub open spec fn reads(self, t: Seq<(String, TomlValue)>) -> bool {
        &&& text_entry(t, "mode"@) == Ok::<Option<String>, ()>(self.mode)
        &&& number_entry(t, "mode_timeout"@, 0x7fff_ffff_ffff_ffff) == Ok::<Option<u64>, ()>(match self.mode_timeout {
            Some(n) => Some(n as u64),
            None => None::<u64>,
        })
        &&& number_entry(t, "mode_alarm"@, 0x7fff_ffff_ffff_ffff) == Ok::<Option<u64>, ()>(match self.mode_alarm {
            Some(n) => Some(n as u64),
            None => None::<u64>,
        })
        &&& text_entry(t, "chain"@) == Ok::<Option<String>, ()>(self.chain)
        &&& text_entry(t, "db_path"@) == Ok::<Option<String>, ()>(self.db_path)
        &&& text_entry(t, "keys_path"@) == Ok::<Option<String>, ()>(self.keys_path)
        &&& text_entry(t, "identity"@) == Ok::<Option<String>, ()>(self.identity)
    }

    /// Reads this part of the settings from a table. Settings that the table
    /// does not hold stay unset; what else the table holds is passed over.
    /// Fails if and only if a setting is not of its kind.
    pub fn from_table(t: &Vec<(String, TomlValue)>) -> (r: Result<Operating, ArgsError>)
        ensures
            r.is_ok() == Operating::typed(t@),
            r.is_ok() ==> r.unwrap().reads(t@),
            r.is_err() ==> r.unwrap_err() is Decode,
    {
        let at_mode = match text_value(t, "mode") {
            Ok(v) => v,
            Err(e) => {
                return Err(e);
            },
        };
        let at_mode_timeout = match number_value(t, "mode_timeout", 0x7fff_ffff_ffff_ffff) {
            Ok(v) => v,
            Err(e) => {
                return Err(e);
            },
        };
        let at_mode_alarm = match number_value(t, "mode_alarm", 0x7fff_ffff_ffff_ffff) {
            Ok(v) => v,
            Err(e) => {
                return Err(e);
            },
        };
        let at_chain = match text_value(t, "chain") {
            Ok(v) => v,
            Err(e) => {
                return Err(e);
            },
        };
        let at_db_path = match text_value(t, "db_path") {
            Ok(v) => v,
            Err(e) => {
                return Err(e);
            },
        };
        let at_keys_path = match text_value(t, "keys_path") {
            Ok(v) => v,
            Err(e) => {
                return Err(e);
            },
        };
        let at_identity = match text_value(t, "identity") {
            Ok(v) => v,
            Err(e) => {
                return Err(e);
            },
        };
        Ok(Operating { mode: at_mode, mode_timeout: at_mode_timeout, mode_alarm: at_mode_alarm, chain: at_chain, db_path: at_db_path, keys_path: at_keys_path, identity: at_identity })
    }
}

impl Account {
    /// Whether every setting of this part that a table holds is of its kind.
    pub open spec fn typed(t: Seq<(String, TomlValue)>) -> bool {
        &&& texts_entry(t, "unlock"@).is_ok()
        &&& texts_entry(t, "password"@).is_ok()
        &&& number_entry(t, "keys_iterations"@, 0xffff_ffff).is_ok()
    }

    /// Whether `self` holds the settings of this part that a table holds.
    pub open spec fn reads(self, t: Seq<(String, TomlValue)>) -> bool {
        &&& texts_entry(t, "unlock"@) == Ok::<Option<Seq<Seq<char>>>, ()>(opt_strings(self.unlock))
        &&& texts_entry(t, "password"@) == Ok::<Option<Seq<Seq<char>>>, ()>(opt_strings(self.password))
        &&& number_entry(t, "keys_iterations"@, 0xffff_ffff) == Ok::<Option<u64>, ()>(match self.keys_iterations {
            Some(n) => Some(n as u64),
            None => None::<u64>,
        })
    }

    /// Reads this part of the settings from a table. Settings that the table
    /// does not hold stay unset; what else the table holds is passed over.
    /// Fails if and only if a setting is not of its kind.
    pub fn from_table(t: &Vec<(String, TomlValue)>) -> (r: Result<Account, ArgsError>)
        ensures
            r.is_ok() == Account::typed(t@),
            r.is_ok() ==> r.unwrap().reads(t@),
            r.is_err() ==> r.unwrap_err() is Decode,
    {
        let at_unlock = match texts_value(t, "unlock") {
            Ok(v) => v,
            Err(e) => {
                return Err(e);
            },
        };
        let at_password = match texts_value(t, "password") {
            Ok(v) => v,
            Err(e) => {
                return Err(e);
            },
        };
        let at_keys_iterations = match number_value(t, "keys_iterations", 0xffff_ffff) {
            Ok(v) => narrow_u32(v),
            Err(e) => {
                return Err(e);
            },
        };
        Ok(Account { unlock: at_unlock, password: at_password, keys_iterations: at_keys_iterations })
    }
}

impl Signer {
    /// Whether every setting of this part that a table holds is of its kind.
    pub open spec fn typed(t: Seq<(String, TomlValue)>) -> bool {
        &&& flag_entry(t, "force"@).is_ok()
        &&& flag_entry(t, "disable"@).is_ok()
        &&& number_entry(t, "port"@, 0xffff).is_ok()
        &&& text_entry(t, "interface"@).is_ok()
        &&& text_entry(t, "path"@).is_ok()
    }

    /// Whether `self` holds the settings of this part that a table holds.
    pub open spec fn reads(self, t: Seq<(String, TomlValue)>) -> bool {
        &&& flag_entry(t, "force"@) == Ok::<Option<bool>, ()>(self.force)
        &&& flag_entry(t, "disable"@) == Ok::<Option<bool>, ()>(self.disable)
        &&& number_entry(t, "port"@, 0xffff) == Ok::<Option<u64>, ()>(match self.port {
            Some(n) => Some(n as u64),
            None => None::<u64>,
        })
        &&& text_entry(t, "interface"@) == Ok::<Option<String>, ()>(self.interface)
        &&& text_entry(t, "path"@) == Ok::<Option<String>, ()>(self.path)
    }

    /// Reads this part of the settings from a table. Settings that the table
    /// does not hold stay unset; what else the table holds is passed over.
    /// Fails if and only if a setting is not of its kind.
    pub fn from_table(t: &Vec<(String, TomlValue)>) -> (r: Result<Signer, ArgsError>)
        ensures
            r.is_ok() == Signer::typed(t@),
            r.is_ok() ==> r.unwrap().reads(t@),
            r.is_err() ==> r.unwrap_err() is Decode,
    {
        let at_force = match flag_value(t, "force") {
            Ok(v) => v,
            Err(e) => {
                return Err(e);
            },
        };
        let at_disable = match flag_value(t, "disable") {
            Ok(v) => v,
            Err(e) => {
                return Err(e);
            },
        };
        let at_port = match number_value(t, "port", 0xffff) {
            Ok(v) => narrow_u16(v),
            Err(e) => {
                return Err(e);
            },
        };
        let at_interface = match text_value(t, "interface") {
            Ok(v) => v,
            Err(e) => {
                return Err(e);
            },
        };
        let at_path = match text_value(t, "path") {
            Ok(v) => v,
            Err(e) => {
                return Err(e);
            },
        };
        Ok(Signer { force: at_force, disable: at_disable, port: at_port, interface: at_interface, path: at_path })
    }
}

impl Network {
    /// Whether every setting of this part that a table holds is of its kind.
    pub open spec fn typed(t: Seq<(String, TomlValue)>) -> bool {
        &&& flag_entry(t, "disable"@).is_ok()
        &&& flag_entry(t, "warp"@).is_ok()
        &&& number_entry(t, "port"@, 0xffff).is_ok()
        &&& number_entry(t, "min_peers"@, 0xffff).is_ok()
        &&& number_entry(t, "max_peers"@, 0xffff).is_ok()
        &&& text_entry(t, "nat"@).is_ok()
        &&& text_entry(t, "id"@).is_ok()
        &&& texts_entry(t, "bootnodes"@).is_ok()
        &&& flag_entry(t, "discovery"@).is_ok()
        &&& text_entry(t, "node_key"@).is_ok()
        &&& text_entry(t, "reserved_peers"@).is_ok()
        &&& flag_entry(t, "reserved_only"@).is_ok()
    }

    /// Whether `self` holds the settings of this part that a table holds.
    pub open spec fn reads(self, t: Seq<(String, TomlValue)>) -> bool {
        &&& flag_entry(t, "disable"@) == Ok::<Option<bool>, ()>(self.disable)
        &&& flag_entry(t, "warp"@) == Ok::<Option<bool>, ()>(self.warp)
        &&& number_entry(t, "port"@, 0xffff) == Ok::<Option<u64>, ()>(match self.port {
            Some(n) => Some(n as u64),
            None => None::<u64>,
        })
        &&& number_entry(t, "min_peers"@, 0xffff) == Ok::<Option<u64>, ()>(match self.min_peers {
            Some(n) => Some(n as u64),
            None => None::<u64>,
        })
        &&& number_entry(t, "max_peers"@, 0xffff) == Ok::<Option<u64>, ()>(match self.max_peers {
            Some(n) => Some(n as u64),
            None => None::<u64>,
        })
        &&& text_entry(t, "nat"@) == Ok::<Option<String>, ()>(self.nat)
        &&& text_entry(t, "id"@) == Ok::<Option<String>, ()>(self.id)
        &&& texts_entry(t, "bootnodes"@) == Ok::<Option<Seq<Seq<char>>>, ()>(opt_strings(self.bootnodes))
        &&& flag_entry(t, "discovery"@) == Ok::<Option<bool>, ()>(self.discovery)
        &&& text_entry(t, "node_key"@) == Ok::<Option<String>, ()>(self.node_key)
        &&& text_entry(t, "reserved_peers"@) == Ok::<Option<String>, ()>(self.reserved_peers)
        &&& flag_entry(t, "reserved_only"@) == Ok::<Option<bool>, ()>(self.reserved_only)
    }

    /// Reads this part of the settings from a table. Settings that the table
    /// does not hold stay unset; what else the table holds is passed over.
    /// Fails if and only if a setting is not of its kind.
    pub fn from_table(t: &Vec<(String, TomlValue)>) -> (r: Result<Network, ArgsError>)
        ensures
            r.is_ok() == Network::typed(t@),
            r.is_ok() ==> r.unwrap().reads(t@),
            r.is_err() ==> r.unwrap_err() is Decode,
    {
        let at_disable = match flag_value(t, "disable") {
            Ok(v) => v,
            Err(e) => {
                return Err(e);
            },
        };
        let at_warp = match flag_value(t, "warp") {
            Ok(v) => v,
            Err(e) => {
                return Err(e);
            },
        };
        let at_port = match number_value(t, "port", 0xffff) {
            Ok(v) => narrow_u16(v),
            Err(e) => {
                return Err(e);
            },
        };
        let at_min_peers = match number_value(t, "min_peers", 0xffff) {
            Ok(v) => narrow_u16(v),
            Err(e) => {
                return Err(e);
            },
        };
        let at_max_peers = match number_value(t, "max_peers", 0xffff) {
            Ok(v) => narrow_u16(v),
            Err(e) => {
                return Err(e);
            },
        };
        let at_nat = match text_value(t, "nat") {
            Ok(v) => v,
            Err(e) => {
                return Err(e);
            },
        };
        let at_id = match text_value(t, "id") {
            Ok(v) => v,
            Err(e) => {
                return Err(e);
            },
        };
        let at_bootnodes = match texts_value(t, "bootnodes") {
            Ok(v) => v,
            Err(e) => {
                return Err(e);
            },
        };
        let at_discovery = match flag_value(t, "discovery") {
            Ok(v) => v,
            Err(e) => {
                return Err(e);
            },
        };
        let at_node_key = match text_value(t, "node_key") {
            Ok(v) => v,
            Err(e) => {
                return Err(e);
            },
        };
        let at_reserved_peers = match text_value(t, "reserved_peers") {
            Ok(v) => v,
            Err(e) => {
                return Err(e);
            },
        };
        let at_reserved_only = match flag_value(t, "reserved_only") {
            Ok(v) => v,
            Err(e) => {
                return Err(e);
            },
        };
        Ok(Network { disable: at_disable, warp: at_warp, port: at_port, min_peers: at_min_peers, max_peers: at_max_peers, nat: at_nat, id: at_id, bootnodes: at_bootnodes, discovery: at_discovery, node_key: at_node_key, reserved_peers: at_reserved_peers, reserved_only: at_reserved_only })
    }
}

impl Rpc {
    /// Whether every setting of this part that a table holds is of its kind.
    pub open spec fn typed(t: Seq<(String, TomlValue)>) -> bool {
        &&& flag_entry(t, "disable"@).is_ok()
        &&& number_entry(t, "port"@, 0xffff).is_ok()
        &&& text_entry(t, "interface"@).is_ok()
        &&& text_entry(t, "cors"@).is_ok()
        &&& texts_entry(t, "apis"@).is_ok()
        &&& texts_entry(t, "hosts"@).is_ok()
    }

    /// Whether `self` holds the settings of this part that a table holds.
    pub open spec fn reads(self, t: Seq<(String, TomlValue)>) -> bool {
        &&& flag_entry(t, "disable"@) == Ok::<Option<bool>, ()>(self.disable)
        &&& number_entry(t, "port"@, 0xffff) == Ok::<Option<u64>, ()>(match self.port {
            Some(n) => Some(n as u64),
            None => None::<u64>,
        })
        &&& text_entry(t, "interface"@) == Ok::<Option<String>, ()>(self.interface)
        &&& text_entry(t, "cors"@) == Ok::<Option<String>, ()>(self.cors)
        &&& texts_entry(t, "apis"@) == Ok::<Option<Seq<Seq<char>>>, ()>(opt_strings(self.apis))
        &&& texts_entry(t, "hosts"@) == Ok::<Option<Seq<Seq<char>>>, ()>(opt_strings(self.hosts))
    }

    /// Reads this part of the settings from a table. Settings that the table
    /// does not hold stay unset; what else the table holds is passed over.
    /// Fails if and only if a setting is not of its kind.
    pub fn from_table(t: &Vec<(String, TomlValue)>) -> (r: Result<Rpc, ArgsError>)
        ensures
            r.is_ok() == Rpc::typed(t@),
            r.is_ok() ==> r.unwrap().reads(t@),
            r.is_err() ==> r.unwrap_err() is Decode,
    {
        let at_disable = match flag_value(t, "disable") {
            Ok(v) => v,
            Err(e) => {
                return Err(e);
            },
        };
        let at_port = match number_value(t, "port", 0xffff) {
            Ok(v) => narrow_u16(v),
            Err(e) => {
                return Err(e);
            },
        };
        let at_interface = match text_value(t, "interface") {
            Ok(v) => v,
            Err(e) => {
                return Err(e);
            },
        };
        let at_cors = match text_value(t, "cors") {
            Ok(v) => v,
            Err(e) => {
                return Err(e);
            },
        };
        let at_apis = match texts_value(t, "apis") {
            Ok(v) => v,
            Err(e) => {
                return Err(e);
            },
        };
        let at_hosts = match texts_value(t, "hosts") {
            Ok(v) => v,
            Err(e) => {
                return Err(e);
            },
        };
        Ok(Rpc { disable: at_disable, port: at_port, interface: at_interface, cors: at_cors, apis: at_apis, hosts: at_hosts })
    }
}

impl Ipc {
    /// Whether every setting of this part that a table holds is of its kind.
    pub open spec fn typed(t: Seq<(String, TomlValue)>) -> bool {
        &&& flag_entry(t, "disable"@).is_ok()
        &&& text_entry(t, "path"@).is_ok()
        &&& texts_entry(t, "apis"@).is_ok()
    }

    /// Whether `self` holds the settings of this part that a table holds.
    pub open spec fn reads(self, t: Seq<(String, TomlValue)>) -> bool {
        &&& flag_entry(t, "disable"@) == Ok::<Option<bool>, ()>(self.disable)
        &&& text_entry(t, "path"@) == Ok::<Option<String>, ()>(self.path)
        &&& texts_entry(t, "apis"@) == Ok::<Option<Seq<Seq<char>>>, ()>(opt_strings(self.apis))
    }

    /// Reads this part of the settings from a table. Settings that the table
    /// does not hold stay unset; what else the table holds is passed over.
    /// Fails if and only if a setting is not of its kind.
    pub fn from_table(t: &Vec<(String, TomlValue)>) -> (r: Result<Ipc, ArgsError>)
        ensures
            r.is_ok() == Ipc::typed(t@),
            r.is_ok() ==> r.unwrap().reads(t@),
            r.is_err() ==> r.unwrap_err() is Decode,
    {
        let at_disable = match flag_value(t, "disable") {
            Ok(v) => v,
            Err(e) => {
                return Err(e);
            },
        };
        let at_path = match text_value(t, "path") {
            Ok(v) => v,
            Err(e) => {
                return Err(e);
            },
        };
        let at_apis = match texts_value(t, "apis") {
            Ok(v) => v,
            Err(e) => {
                return Err(e);
            },
        };
        Ok(Ipc { disable: at_disable, path: at_path, apis: at_apis })
    }
}

impl Dapps {
    /// Whether every setting of this part that a table holds is of its kind.
    pub open spec fn typed(t: Seq<(String, TomlValue)>) -> bool {
        &&& flag_entry(t, "disable"@).is_ok()
        &&& number_entry(t, "port"@, 0xffff).is_ok()
        &&& text_entry(t, "interface"@).is_ok()
        &&& texts_entry(t, "hosts"@).is_ok()
        &&& text_entry(t, "path"@).is_ok()
        &&& text_entry(t, "user"@).is_ok()
        &&& text_entry(t, "pass"@).is_ok()
    }

    /// Whether `self` holds the settings of this part that a table holds.
    pub open spec fn reads(self, t: Seq<(String, TomlValue)>) -> bool {
        &&& flag_entry(t, "disable"@) == Ok::<Option<bool>, ()>(self.disable)
        &&& number_entry(t, "port"@, 0xffff) == Ok::<Option<u64>, ()>(match self.port {
            Some(n) => Some(n as u64),
            None => None::<u64>,
        })
        &&& text_entry(t, "interface"@) == Ok::<Option<String>, ()>(self.interface)
        &&& texts_entry(t, "hosts"@) == Ok::<Option<Seq<Seq<char>>>, ()>(opt_strings(self.hosts))
        &&& text_entry(t, "path"@) == Ok::<Option<String>, ()>(self.path)
        &&& text_entry(t, "user"@) == Ok::<Option<String>, ()>(self.user)
        &&& text_entry(t, "pass"@) == Ok::<Option<String>, ()>(self.pass)
    }

    /// Reads this part of the settings from a table. Settings that the table
    /// does not hold stay unset; what else the table holds is passed over.
    /// Fails if and only if a setting is not of its kind.
    pub fn from_table(t: &Vec<(String, TomlValue)>) -> (r: Result<Dapps, ArgsError>)
        ensures
            r.is_ok() == Dapps::typed(t@),
            r.is_ok() ==> r.unwrap().reads(t@),
            r.is_err() ==> r.unwrap_err() is Decode,
    {
        let at_disable = match flag_value(t, "disable") {
            Ok(v) => v,
            Err(e) => {
                return Err(e);
            },
        };
        let at_port = match number_value(t, "port", 0xffff) {
            Ok(v) => narrow_u16(v),
            Err(e) => {
                return Err(e);
            },
        };
        let at_interface = match text_value(t, "interface") {
            Ok(v) => v,
            Err(e) => {
                return Err(e);
            },
        };
        let at_hosts = match texts_value(t, "hosts") {
            Ok(v) => v,
            Err(e) => {
                return Err(e);
            },
        };
        let at_path = match text_value(t, "path") {
            Ok(v) => v,
            Err(e) => {
                return Err(e);
            },
        };
        let at_user = match text_value(t, "user") {
            Ok(v) => v,
            Err(e) => {
                return Err(e);
            },
        };
        let at_pass = match text_value(t, "pass") {
            Ok(v) => v,
            Err(e) => {
                return Err(e);
            },
        };
        Ok(Dapps { disable: at_disable, port: at_port, interface: at_interface, hosts: at_hosts, path: at_path, user: at_user, pass: at_pass })
    }
}

impl Mining {
    /// Whether every setting of this part that a table holds is of its kind.
    pub open spec fn typed(t: Seq<(String, TomlValue)>) -> bool {
        &&& text_entry(t, "author"@).is_ok()
        &&& flag_entry(t, "force_sealing"@).is_ok()
        &&& text_entry(t, "reseal_on_txs"@).is_ok()
        &&& number_entry(t, "reseal_min_period"@, 0x7fff_ffff_ffff_ffff).is_ok()
        &&& number_entry(t, "work_queue_size"@, 0xffff_ffff).is_ok()
        &&& text_entry(t, "tx_gas_limit"@).is_ok()
        &&& text_entry(t, "relay_set"@).is_ok()
        &&& text_entry(t, "usd_per_tx"@).is_ok()
        &&& text_entry(t, "usd_per_eth"@).is_ok()
        &&& text_entry(t, "price_update_period"@).is_ok()
        &&& text_entry(t, "gas_floor_target"@).is_ok()
        &&& text_entry(t, "gas_cap"@).is_ok()
        &&& text_entry(t, "extra_data"@).is_ok()
        &&& number_entry(t, "tx_queue_size"@, 0xffff_ffff).is_ok()
        &&& flag_entry(t, "remove_solved"@).is_ok()
        &&& texts_entry(t, "notify_work"@).is_ok()
    }

    /// Whether `self` holds the settings of this part that a table holds.
    pub open spec fn reads(self, t: Seq<(String, TomlValue)>) -> bool {
        &&& text_entry(t, "author"@) == Ok::<Option<String>, ()>(self.author)
        &&& flag_entry(t, "force_sealing"@) == Ok::<Option<bool>, ()>(self.force_sealing)
        &&& text_entry(t, "reseal_on_txs"@) == Ok::<Option<String>, ()>(self.reseal_on_txs)
        &&& number_entry(t, "reseal_min_period"@, 0x7fff_ffff_ffff_ffff) == Ok::<Option<u64>, ()>(match self.reseal_min_period {
            Some(n) => Some(n as u64),
            None => None::<u64>,
        })
        &&& number_entry(t, "work_queue_size"@, 0xffff_ffff) == Ok::<Option<u64>, ()>(match self.work_queue_size {
            Some(n) => Some(n as u64),
            None => None::<u64>,
        })
        &&& text_entry(t, "tx_gas_limit"@) == Ok::<Option<String>, ()>(self.tx_gas_limit)
        &&& text_entry(t, "relay_set"@) == Ok::<Option<String>, ()>(self.relay_set)
        &&& text_entry(t, "usd_per_tx"@) == Ok::<Option<String>, ()>(self.usd_per_tx)
        &&& text_entry(t, "usd_per_eth"@) == Ok::<Option<String>, ()>(self.usd_per_eth)
        &&& text_entry(t, "price_update_period"@) == Ok::<Option<String>, ()>(self.price_update_period)
        &&& text_entry(t, "gas_floor_target"@) == Ok::<Option<String>, ()>(self.gas_floor_target)
        &&& text_entry(t, "gas_cap"@) == Ok::<Option<String>, ()>(self.gas_cap)
        &&& text_entry(t, "extra_data"@) == Ok::<Option<String>, ()>(self.extra_data)
        &&& number_entry(t, "tx_queue_size"@, 0xffff_ffff) == Ok::<Option<u64>, ()>(match self.tx_queue_size {
            Some(n) => Some(n as u64),
            None => None::<u64>,
        })
        &&& flag_entry(t, "remove_solved"@) == Ok::<Option<bool>, ()>(self.remove_solved)
        &&& texts_entry(t, "notify_work"@) == Ok::<Option<Seq<Seq<char>>>, ()>(opt_strings(self.notify_work))
    }

    /// Reads this part of the settings from a table. Settings that the table
    /// does not hold stay unset; what else the table holds is passed over.
    /// Fails if and only if a setting is not of its kind.
    pub fn from_table(t: &Vec<(String, TomlValue)>) -> (r: Result<Mining, ArgsError>)
        ensures
            r.is_ok() == Mining::typed(t@),
            r.is_ok() ==> r.unwrap().reads(t@),
            r.is_err() ==> r.unwrap_err() is Decode,
    {
        let at_author = match text_value(t, "author") {
            Ok(v) => v,
            Err(e) => {
                return Err(e);
            },
        };
        let at_force_sealing = match flag_value(t, "force_sealing") {
            Ok(v) => v,
            Err(e) => {
                return Err(e);
            },
        };
        let at_reseal_on_txs = match text_value(t, "reseal_on_txs") {
            Ok(v) => v,
            Err(e) => {
                return Err(e);
            },
        };
        let at_reseal_min_period = match number_value(t, "reseal_min_period", 0x7fff_ffff_ffff_ffff) {
            Ok(v) => v,
            Err(e) => {
                return Err(e);
            },
        };
        let at_work_queue_size = match number_value(t, "work_queue_size", 0xffff_ffff) {
            Ok(v) => narrow_usize(v),
            Err(e) => {
                return Err(e);
            },
        };
        let at_tx_gas_limit = match text_value(t, "tx_gas_limit") {
            Ok(v) => v,
            Err(e) => {
                return Err(e);
            },
        };
        let at_relay_set = match text_value(t, "relay_set") {
            Ok(v) => v,
            Err(e) => {
                return Err(e);
            },
        };
        let at_usd_per_tx = match text_value(t, "usd_per_tx") {
            Ok(v) => v,
            Err(e) => {
                return Err(e);
            },
        };
        let at_usd_per_eth = match text_value(t, "usd_per_eth") {
            Ok(v) => v,
            Err(e) => {
                return Err(e);
            },
        };
        let at_price_update_period = match text_value(t, "price_update_period") {
            Ok(v) => v,
            Err(e) => {
                return Err(e);
            },
        };
        let at_gas_floor_target = match text_value(t, "gas_floor_target") {
            Ok(v) => v,
            Err(e) => {
                return Err(e);
            },
        };
        let at_gas_cap = match text_value(t, "gas_cap") {
            Ok(v) => v,
            Err(e) => {
                return Err(e);
            },
        };
        let at_extra_data = match text_value(t, "extra_data") {
            Ok(v) => v,
            Err(e) => {
                return Err(e);
            },
        };
        let at_tx_queue_size = match number_value(t, "tx_queue_size", 0xffff_ffff) {
            Ok(v) => narrow_usize(v),
            Err(e) => {
                return Err(e);
            },
        };
        let at_remove_solved = match flag_value(t, "remove_solved") {
            Ok(v) => v,
            Err(e) => {
                return Err(e);
            },
        };
        let at_notify_work = match texts_value(t, "notify_work") {
            Ok(v) => v,
            Err(e) => {
                return Err(e);
            },
        };
        Ok(Mining { author: at_author, force_sealing: at_force_sealing, reseal_on_txs: at_reseal_on_txs, reseal_min_period: at_reseal_min_period, work_queue_size: at_work_queue_size, tx_gas_limit: at_tx_gas_limit, relay_set: at_relay_set, usd_per_tx: at_usd_per_tx, usd_per_eth: at_usd_per_eth, price_update_period: at_price_update_period, gas_floor_target: at_gas_floor_target, gas_cap: at_gas_cap, extra_data: at_extra_data, tx_queue_size: at_tx_queue_size, remove_solved: at_remove_solved, notify_work: at_notify_work })
    }
}

impl Footprint {
    /// Whether every setting of this part that a table holds is of its kind.
    pub open spec fn typed(t: Seq<(String, TomlValue)>) -> bool {
        &&& text_entry(t, "tracing"@).is_ok()
        &&& text_entry(t, "pruning"@).is_ok()
        &&& flag_entry(t, "fast_and_loose"@).is_ok()
        &&& number_entry(t, "cache_size"@, 0xffff_ffff).is_ok()
        &&& number_entry(t, "cache_size_db"@, 0xffff_ffff).is_ok()
        &&& number_entry(t, "cache_size_blocks"@, 0xffff_ffff).is_ok()
        &&& number_entry(t, "cache_size_queue"@, 0xffff_ffff).is_ok()
        &&& text_entry(t, "db_compaction"@).is_ok()
        &&& flag_entry(t, "fat_db"@).is_ok()
    }

    /// Whether `self` holds the settings of this part that a table holds.
    pub open spec fn reads(self, t: Seq<(String, TomlValue)>) -> bool {
        &&& text_entry(t, "tracing"@) == Ok::<Option<String>, ()>(self.tracing)
        &&& text_entry(t, "pruning"@) == Ok::<Option<String>, ()>(self.pruning)
        &&& flag_entry(t, "fast_and_loose"@) == Ok::<Option<bool>, ()>(self.fast_and_loose)
        &&& number_entry(t, "cache_size"@, 0xffff_ffff) == Ok::<Option<u64>, ()>(match self.cache_size {
            Some(n) => Some(n as u64),
            None => None::<u64>,
        })
        &&& number_entry(t, "cache_size_db"@, 0xffff_ffff) == Ok::<Option<u64>, ()>(match self.cache_size_db {
            Some(n) => Some(n as u64),
            None => None::<u64>,
        })
        &&& number_entry(t, "cache_size_blocks"@, 0xffff_ffff) == Ok::<Option<u64>, ()>(match self.cache_size_blocks {
            Some(n) => Some(n as u64),
            None => None::<u64>,
        })
        &&& number_entry(t, "cache_size_queue"@, 0xffff_ffff) == Ok::<Option<u64>, ()>(match self.cache_size_queue {
            Some(n) => Some(n as u64),
            None => None::<u64>,
        })
        &&& text_entry(t, "db_compaction"@) == Ok::<Option<String>, ()>(self.db_compaction)
        &&& flag_entry(t, "fat_db"@) == Ok::<Option<bool>, ()>(self.fat_db)
    }

    /// Reads this part of the settings from a table. Settings that the table
    /// does not hold stay unset; what else the table holds is passed over.
    /// Fails if and only if a setting is not of its kind.
    pub fn from_table(t: &Vec<(String, TomlValue)>) -> (r: Result<Footprint, ArgsError>)
        ensures
            r.is_ok() == Footprint::typed(t@),
            r.is_ok() ==> r.unwrap().reads(t@),
            r.is_err() ==> r.unwrap_err() is Decode,
    {
        let at_tracing = match text_value(t, "tracing") {
            Ok(v) => v,
            Err(e) => {
                return Err(e);
            },
        };
        let at_pruning = match text_value(t, "pruning") {
            Ok(v) => v,
            Err(e) => {
                return Err(e);
            },
        };
        let at_fast_and_loose = match flag_value(t, "fast_and_loose") {
            Ok(v) => v,
            Err(e) => {
                return Err(e);
            },
        };
        let at_cache_size = match number_value(t, "cache_size", 0xffff_ffff) {
            Ok(v) => narrow_u32(v),
            Err(e) => {
                return Err(e);
            },
        };
        let at_cache_size_db = match number_value(t, "cache_size_db", 0xffff_ffff) {
            Ok(v) => narrow_u32(v),
            Err(e) => {
                return Err(e);
            },
        };
        let at_cache_size_blocks = match number_value(t, "cache_size_blocks", 0xffff_ffff) {
            Ok(v) => narrow_u32(v),
            Err(e) => {
                return Err(e);
            },
        };
        let at_cache_size_queue = match number_value(t, "cache_size_queue", 0xffff_ffff) {
            Ok(v) => narrow_u32(v),
            Err(e) => {
                return Err(e);
            },
        };
        let at_db_compaction = match text_value(t, "db_compaction") {
            Ok(v) => v,
            Err(e) => {
                return Err(e);
            },
        };
        let at_fat_db = match flag_value(t, "fat_db") {
            Ok(v) => v,
            Err(e) => {
                return Err(e);
            },
        };
        Ok(Footprint { tracing: at_tracing, pruning: at_pruning, fast_and_loose: at_fast_and_loose, cache_size: at_cache_size, cache_size_db: at_cache_size_db, cache_size_blocks: at_cache_size_blocks, cache_size_queue: at_cache_size_queue, db_compaction: at_db_compaction, fat_db: at_fat_db })
    }
}

impl Snapshots {
    /// Whether every setting of this part that a table holds is of its kind.
    pub open spec fn typed(t: Seq<(String, TomlValue)>) -> bool {
        &&& flag_entry(t, "disable_periodic"@).is_ok()
    }

    /// Whether `self` holds the settings of this part that a table holds.
    pub open spec fn reads(self, t: Seq<(String, TomlValue)>) -> bool {
        &&& flag_entry(t, "disable_periodic"@) == Ok::<Option<bool>, ()>(self.disable_periodic)
    }

    /// Reads this part of the settings from a table. Settings that the table
    /// does not hold stay unset; what else the table holds is passed over.
    /// Fails if and only if a setting is not of its kind.
    pub fn from_table(t: &Vec<(String, TomlValue)>) -> (r: Result<Snapshots, ArgsError>)
        ensures
            r.is_ok() == Snapshots::typed(t@),
            r.is_ok() ==> r.unwrap().reads(t@),
            r.is_err() ==> r.unwrap_err() is Decode,
    {
        let at_disable_periodic = match flag_value(t, "disable_periodic") {
            Ok(v) => v,
            Err(e) => {
                return Err(e);
            },
        };
        Ok(Snapshots { disable_periodic: at_disable_periodic })
    }
}

impl VM {
    /// Whether every setting of this part that a table holds is of its kind.
    pub open spec fn typed(t: Seq<(String, TomlValue)>) -> bool {
        &&& flag_entry(t, "jit"@).is_ok()
    }

    /// Whether `self` holds the settings of this part that a table holds.
    pub open spec fn reads(self, t: Seq<(String, TomlValue)>) -> bool {
        &&& flag_entry(t, "jit"@) == Ok::<Option<bool>, ()>(self.jit)
    }

    /// Reads this part of the settings from a table. Settings that the table
    /// does not hold stay unset; what else the table holds is passed over.
    /// Fails if and only if a setting is not of its kind.
    pub fn from_table(t: &Vec<(String, TomlValue)>) -> (r: Result<VM, ArgsError>)
        ensures
            r.is_ok() == VM::typed(t@),
            r.is_ok() ==> r.unwrap().reads(t@),
            r.is_err() ==> r.unwrap_err() is Decode,
    {
        let at_jit = match flag_value(t, "jit") {
            Ok(v) => v,
            Err(e) => {
                return Err(e);
            },
        };
        Ok(VM { jit: at_jit })
    }
}

impl Misc {
    /// Whether every setting of this part that a table holds is of its kind.
    pub open spec fn typed(t: Seq<(String, TomlValue)>) -> bool {
        &&& text_entry(t, "logging"@).is_ok()
        &&& text_entry(t, "log_file"@).is_ok()
        &&& flag_entry(t, "color"@).is_ok()
    }

    /// Whether `self` holds the settings of this part that a table holds.
    pub open spec fn reads(self, t: Seq<(String, TomlValue)>) -> bool {
        &&& text_entry(t, "logging"@) == Ok::<Option<String>, ()>(self.logging)
        &&& text_entry(t, "log_file"@) == Ok::<Option<String>, ()>(self.log_file)
        &&& flag_entry(t, "color"@) == Ok::<Option<bool>, ()>(self.color)
    }

    /// Reads this part of the settings from a table. Settings that the table
    /// does not hold stay unset; what else the table holds is passed over.
    /// Fails if and only if a setting is not of its kind.
    pub fn from_table(t: &Vec<(String, TomlValue)>) -> (r: Result<Misc, ArgsError>)
        ensures
            r.is_ok() == Misc::typed(t@),
            r.is_ok() ==> r.unwrap().reads(t@),
            r.is_err() ==> r.unwrap_err() is Decode,
    {
        let at_logging = match text_value(t, "logging") {
            Ok(v) => v,
            Err(e) => {
                return Err(e);
            },
        };
        let at_log_file = match text_value(t, "log_file") {
            Ok(v) => v,
            Err(e) => {
                return Err(e);
            },
        };
        let at_color = match flag_value(t, "color") {
            Ok(v) => v,
            Err(e) => {
                return Err(e);
            },
        };
        Ok(Misc { logging: at_logging, log_file: at_log_file, color: at_color })
    }
}

/// Whether what stands under the name of a part is a table, if anything does.
pub open spec fn part_is_table(top: Seq<(String, TomlValue)>, name: Seq<char>) -> bool {
    match entry(top, name) {
        None => true,
        Some(TomlValue::Table(_)) => true,
        Some(_) => false,
    }
}

/// The table that stands under the name of a part, if one does.
pub open spec fn part_table(top: Seq<(String, TomlValue)>, name: Seq<char>) -> Option<
    Seq<(String, TomlValue)>,
> {
    match entry(top, name) {
        Some(TomlValue::Table(t)) => Some(t@),
        _ => None,
    }
}

/// Looks for the table of a part: nothing where none stands under the name,
/// an error where something else than a table does.
pub fn find_part<'a>(top: &'a Vec<(String, TomlValue)>, name: &str) -> (r: Result<
    Option<&'a Vec<(String, TomlValue)>>,
    ArgsError,
>)
    ensures
        r.is_ok() == part_is_table(top@, name@),
        match r {
            Ok(Some(t)) => part_table(top@, name@) == Some(t@),
            Ok(None) => part_table(top@, name@).is_none(),
            Err(e) => e is Decode,
        },
{
    match find_entry(top, name) {
        None => Ok(None),
        Some(TomlValue::Table(t)) => Ok(Some(t)),
        Some(_) => Err(ArgsError::Decode(name.to_owned())),
    }
}

impl Config {
    /// Whether every part that a table holds is a table whose settings are of
    /// their kinds.
    pub open spec fn typed(top: Seq<(String, TomlValue)>) -> bool {
        &&& part_is_table(top, "parity"@) && (part_table(top, "parity"@).is_some() ==> Operating::typed(
            part_table(top, "parity"@).unwrap(),
        ))
        &&& part_is_table(top, "account"@) && (part_table(top, "account"@).is_some() ==> Account::typed(
            part_table(top, "account"@).unwrap(),
        ))
        &&& part_is_table(top, "signer"@) && (part_table(top, "signer"@).is_some() ==> Signer::typed(
            part_table(top, "signer"@).unwrap(),
        ))
        &&& part_is_table(top, "network"@) && (part_table(top, "network"@).is_some() ==> Network::typed(
            part_table(top, "network"@).unwrap(),
        ))
        &&& part_is_table(top, "rpc"@) && (part_table(top, "rpc"@).is_some() ==> Rpc::typed(
            part_table(top, "rpc"@).unwrap(),
        ))
        &&& part_is_table(top, "ipc"@) && (part_table(top, "ipc"@).is_some() ==> Ipc::typed(
            part_table(top, "ipc"@).unwrap(),
        ))
        &&& part_is_table(top, "dapps"@) && (part_table(top, "dapps"@).is_some() ==> Dapps::typed(
            part_table(top, "dapps"@).unwrap(),
        ))
        &&& part_is_table(top, "mining"@) && (part_table(top, "mining"@).is_some() ==> Mining::typed(
            part_table(top, "mining"@).unwrap(),
        ))
        &&& part_is_table(top, "footprint"@) && (part_table(top, "footprint"@).is_some() ==> Footprint::typed(
            part_table(top, "footprint"@).unwrap(),
        ))
        &&& part_is_table(top, "snapshots"@) && (part_table(top, "snapshots"@).is_some() ==> Snapshots::typed(
            part_table(top, "snapshots"@).unwrap(),
        ))
        &&& part_is_table(top, "vm"@) && (part_table(top, "vm"@).is_some() ==> VM::typed(
            part_table(top, "vm"@).unwrap(),
        ))
        &&& part_is_table(top, "misc"@) && (part_table(top, "misc"@).is_some() ==> Misc::typed(
            part_table(top, "misc"@).unwrap(),
        ))
    }

    /// Whether `self` holds the parts that a table holds, each with its settings.
    pub open spec fn reads(self, top: Seq<(String, TomlValue)>) -> bool {
        &&& (match part_table(top, "parity"@) {
            Some(t) => self.parity.is_some() && self.parity.unwrap().reads(t),
            None => self.parity.is_none(),
        })
        &&& (match part_table(top, "account"@) {
            Some(t) => self.account.is_some() && self.account.unwrap().reads(t),
            None => self.account.is_none(),
        })
        &&& (match part_table(top, "signer"@) {
            Some(t) => self.signer.is_some() && self.signer.unwrap().reads(t),
            None => self.signer.is_none(),
        })
        &&& (match part_table(top, "network"@) {
            Some(t) => self.network.is_some() && self.network.unwrap().reads(t),
            None => self.network.is_none(),
        })
        &&& (match part_table(top, "rpc"@) {
            Some(t) => self.rpc.is_some() && self.rpc.unwrap().reads(t),
            None => self.rpc.is_none(),
        })
        &&& (match part_table(top, "ipc"@) {
            Some(t) => self.ipc.is_some() && self.ipc.unwrap().reads(t),
            None => self.ipc.is_none(),
        })
        &&& (match part_table(top, "dapps"@) {
            Some(t) => self.dapps.is_some() && self.dapps.unwrap().reads(t),
            None => self.dapps.is_none(),
        })
        &&& (match part_table(top, "mining"@) {
            Some(t) => self.mining.is_some() && self.mining.unwrap().reads(t),
            None => self.mining.is_none(),
        })
        &&& (match part_table(top, "footprint"@) {
            Some(t) => self.footprint.is_some() && self.footprint.unwrap().reads(t),
            None => self.footprint.is_none(),
        })
        &&& (match part_table(top, "snapshots"@) {
            Some(t) => self.snapshots.is_some() && self.snapshots.unwrap().reads(t),
            None => self.snapshots.is_none(),
        })
        &&& (match part_table(top, "vm"@) {
            Some(t) => self.vm.is_some() && self.vm.unwrap().reads(t),
            None => self.vm.is_none(),
        })
        &&& (match part_table(top, "misc"@) {
            Some(t) => self.misc.is_some() && self.misc.unwrap().reads(t),
            None => self.misc.is_none(),
        })
    }

    /// Reads the settings from the table of a settings file. Parts that the
    /// table does not hold stay unset; what else it holds is passed over.
    /// Fails if and only if a part is no table or a setting is not of its kind.
    pub fn from_table(top: &Vec<(String, TomlValue)>) -> (r: Result<Config, ArgsError>)
        ensures
            r.is_ok() == Config::typed(top@),
            r.is_ok() ==> r.unwrap().reads(top@),
            r.is_err() ==> r.unwrap_err() is Decode,
    {
        let parity = match find_part(top, "parity") {
            Ok(Some(t)) => match Operating::from_table(t) {
                Ok(p) => Some(p),
                Err(e) => {
                    return Err(e);
                },
            },
            Ok(None) => None,
            Err(e) => {
                return Err(e);
            },
        };
        let account = match find_part(top, "account") {
            Ok(Some(t)) => match Account::from_table(t) {
                Ok(p) => Some(p),
                Err(e) => {
                    return Err(e);
                },
            },
            Ok(None) => None,
            Err(e) => {
                return Err(e);
            },
        };
        let signer = match find_part(top, "signer") {
            Ok(Some(t)) => match Signer::from_table(t) {
                Ok(p) => Some(p),
                Err(e) => {
                    return Err(e);
                },
            },
            Ok(None) => None,
            Err(e) => {
                return Err(e);
            },
        };
        let network = match find_part(top, "network") {
            Ok(Some(t)) => match Network::from_table(t) {
                Ok(p) => Some(p),
                Err(e) => {
                    return Err(e);
                },
            },
            Ok(None) => None,
            Err(e) => {
                return Err(e);
            },
        };
        let rpc = match find_part(top, "rpc") {
            Ok(Some(t)) => match Rpc::from_table(t) {
                Ok(p) => Some(p),
                Err(e) => {
                    return Err(e);
                },
            },
            Ok(None) => None,
            Err(e) => {
                return Err(e);
            },
        };
        let ipc = match find_part(top, "ipc") {
            Ok(Some(t)) => match Ipc::from_table(t) {
                Ok(p) => Some(p),
                Err(e) => {
                    return Err(e);
                },
            },
            Ok(None) => None,
            Err(e) => {
                return Err(e);
            },
        };
        let dapps = match find_part(top, "dapps") {
            Ok(Some(t)) => match Dapps::from_table(t) {
                Ok(p) => Some(p),
                Err(e) => {
                    return Err(e);
                },
            },
            Ok(None) => None,
            Err(e) => {
                return Err(e);
            },
        };
        let mining = match find_part(top, "mining") {
            Ok(Some(t)) => match Mining::from_table(t) {
                Ok(p) => Some(p),
                Err(e) => {
                    return Err(e);
                },
            },
            Ok(None) => None,
            Err(e) => {
                return Err(e);
            },
        };
        let footprint = match find_part(top, "footprint") {
            Ok(Some(t)) => match Footprint::from_table(t) {
                Ok(p) => Some(p),
                Err(e) => {
                    return Err(e);
                },
            },
            Ok(None) => None,
            Err(e) => {
                return Err(e);
            },
        };
        let snapshots = match find_part(top, "snapshots") {
            Ok(Some(t)) => match Snapshots::from_table(t) {
                Ok(p) => Some(p),
                Err(e) => {
                    return Err(e);
                },
            },
            Ok(None) => None,
            Err(e) => {
                return Err(e);
            },
        };
        let vm = match find_part(top, "vm") {
            Ok(Some(t)) => match VM::from_table(t) {
                Ok(p) => Some(p),
                Err(e) => {
                    return Err(e);
                },
            },
            Ok(None) => None,
            Err(e) => {
                return Err(e);
            },
        };
        let misc = match find_part(top, "misc") {
            Ok(Some(t)) => match Misc::from_table(t) {
                Ok(p) => Some(p),
                Err(e) => {
                    return Err(e);
                },
            },
            Ok(None) => None,
            Err(e) => {
                return Err(e);
            },
        };
        Ok(Config { parity, account, signer, network, rpc, ipc, dapps, mining, footprint, snapshots, vm, misc })
    }

    /// Reads the settings from the text of a settings file. A text with more
    /// than `MAX_MARKS` opening brackets, opening braces and dots is refused
    /// unread, as a text that cannot be parsed. Else fails with what the
    /// parser says where the text is no valid TOML, else if and only if a
    /// part is no table or a setting is not of its kind.
    pub fn parse(text: &str) -> (r: Result<Config, ArgsError>)
        ensures
            !shallow(text.spec_bytes()) ==> r.is_err() && r.unwrap_err() is Parsing,
            shallow(text.spec_bytes()) ==> (match toml_outcome(text@) {
                None => r.is_err() && r.unwrap_err() is Parsing,
                Some(TomlValue::Table(top)) => {
                    &&& r.is_ok() == Config::typed(top@)
                    &&& r.is_ok() ==> r.unwrap().reads(top@)
                    &&& r.is_err() ==> r.unwrap_err() is Decode
                },
                Some(_) => r.is_err() && r.unwrap_err() is Decode,
            }),
    {
        if !is_shallow(text) {
            let mut errors: Vec<String> = Vec::new();
            errors.push("the settings nest too deep".to_owned());
            return Err(ArgsError::Parsing(errors));
        }
        let value = match toml_parse(text) {
            Ok(v) => v,
            Err(e) => {
                let mut errors: Vec<String> = Vec::new();
                errors.push(e);
                return Err(ArgsError::Parsing(errors));
            },
        };
        match &value {
            TomlValue::Table(top) => Config::from_table(top),
            _ => Err(ArgsError::Decode(String::new())),
        }
    }
}

impl Args {
    /// Reads the settings from the text of a settings file: `Config::parse`.
    pub fn parse_config(text: &str) -> (r: Result<Config, ArgsError>)
        ensures
            !shallow(text.spec_bytes()) ==> r.is_err() && r.unwrap_err() is Parsing,
            shallow(text.spec_bytes()) ==> (match toml_outcome(text@) {
                None => r.is_err() && r.unwrap_err() is Parsing,
                Some(TomlValue::Table(top)) => {
                    &&& r.is_ok() == Config::typed(top@)
                    &&& r.is_ok() ==> r.unwrap().reads(top@)
                    &&& r.is_err() ==> r.unwrap_err() is Decode
                },
                Some(_) => r.is_err() && r.unwrap_err() is Decode,
            }),
    {
        Config::parse(text)
    }
}

} // verus!
