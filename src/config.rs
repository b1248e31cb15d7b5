//! The configuration file's schema, the version check made when it is
//! loaded, and the salvage of what can be read from a file that no longer
//! matches the schema.
use vstd::prelude::*;

use crate::links::{add_tag, ProgramLink};
use crate::text::views;

verus! {

/// The schema version this program writes.
pub const CONFIG_FILE_VERSION: u32 = 6;

/// The directory, relative to the working directory, that holds the
/// configuration and the icon cache.
pub const CONFIG_SAVE_PATH: &'static str = ".baro";

/// The configuration file's name inside that directory.
pub const CONFIG_FILE_NAME: &'static str = "links.json";

/// The lowercase hexadecimal MD5 digest of the UTF-8 encoding of a string.
pub uninterp spec fn md5_hex_of(s: Seq<char>) -> Seq<char>;

/// Relies on `md5::compute` over the UTF-8 bytes of `s`, written out with the
/// digest's `LowerHex`, which prints each of its 16 bytes as two lowercase
/// hex digits.
#[verifier::external_body]
fn md5_hex(s: &str) -> (r: String)
    ensures
        r@ == md5_hex_of(s@),
        r@.len() == 32,
{
    format!("{:x}", md5::compute(s.as_bytes()))
}

/// Where the configuration file lives: the file inside the directory.
pub fn config_file_path() -> (r: String)
    ensures
        r@ == CONFIG_SAVE_PATH@ + "/"@ + CONFIG_FILE_NAME@,
{
    let mut r = String::from_str(CONFIG_SAVE_PATH);
    r.append("/");
    r.append(CONFIG_FILE_NAME);
    r
}

/// The directory that holds the icons taken from executables.
pub fn exe_icon_dir() -> (r: String)
    ensures
        r@ == CONFIG_SAVE_PATH@ + "/cache/exe_icon"@,
{
    let mut r = String::from_str(CONFIG_SAVE_PATH);
    r.append("/cache/exe_icon");
    r
}

/// The cached icon file named by a digest: `<digest>.png` in that directory.
pub fn exe_icon_file_for_digest(digest_hex: &str) -> (r: String)
    ensures
        r@ == CONFIG_SAVE_PATH@ + "/cache/exe_icon"@ + "/"@ + digest_hex@ + ".png"@,
{
    let mut r = exe_icon_dir();
    r.append("/");
    r.append(digest_hex);
    r.append(".png");
    r
}

/// The cached icon file of the executable at `exe_path`, named by the MD5
/// digest of the path.
pub fn exe_icon_cache_file(exe_path: &str) -> (r: String)
    ensures
        r@ == CONFIG_SAVE_PATH@ + "/cache/exe_icon"@ + "/"@ + md5_hex_of(exe_path@) + ".png"@,
        r@.len() == CONFIG_SAVE_PATH@.len() + "/cache/exe_icon"@.len() + 1 + 32 + ".png"@.len(),
{
    let digest = md5_hex(exe_path);
    proof {
        reveal_strlit("/");
    }
    exe_icon_file_for_digest(digest.as_str())
}

/// A parsed JSON document, holding what the salvage reads of it.
#[derive(Debug)]
pub enum JsonValue {
    Null,
    Bool(bool),
    /// A number, with its value when it is a non-negative integer that fits
    /// in a `u64`.
    Number(Option<u64>),
    Str(String),
    Array(Vec<JsonValue>),
    /// The members of an object, in order.
    Object(Vec<(String, JsonValue)>),
}

/// The configuration file's content.
#[derive(Clone, Debug)]
pub struct LinkConfigSchema {
    pub version: u32,
    /// The tag set, each tag once.
    pub tags: Vec<String>,
    pub program_links: Vec<ProgramLink>,
}

impl Default for LinkConfigSchema {
    fn default() -> (r: LinkConfigSchema)
        ensures
            r.version == CONFIG_FILE_VERSION,
            r.tags@.len() == 0,
            r.program_links@.len() == 0,
    {
        LinkConfigSchema { version: CONFIG_FILE_VERSION, tags: Vec::new(), program_links: Vec::new() }
    }
}

/// `j` is the first member of `fields` named `key`.
pub open spec fn first_named(fields: Seq<(String, JsonValue)>, key: Seq<char>, j: int) -> bool {
    &&& 0 <= j < fields.len()
    &&& fields[j].0@ == key
    &&& forall|k: int| 0 <= k < j ==> fields[k].0@ != key
}

/// The member `key` of an object, as `serde_json::Value::get` finds it; none
/// for a value that is no object.
pub open spec fn member(v: JsonValue, key: Seq<char>) -> Option<JsonValue> {
    match v {
        JsonValue::Object(fields) => if exists|j: int| first_named(fields@, key, j) {
            Some(fields@[choose|j: int| first_named(fields@, key, j)].1)
        } else {
            None
        },
        _ => None,
    }
}

/// The strings among `items`, in order.
pub open spec fn string_items(items: Seq<JsonValue>) -> Seq<Seq<char>>
    decreases items.len(),
{
    if items.len() == 0 {
        Seq::empty()
    } else {
        let rest = string_items(items.drop_last());
        match items.last() {
            JsonValue::Str(s) => rest.push(s@),
            _ => rest,
        }
    }
}

/// The strings a member holds: each string of an array, or a lone string.
pub open spec fn salvaged_strings(v: Option<JsonValue>) -> Seq<Seq<char>> {
    match v {
        Some(JsonValue::Array(items)) => string_items(items@),
        Some(JsonValue::Str(s)) => seq![s@],
        _ => Seq::empty(),
    }
}

/// `s` without repeats, each kept where it first occurs.
pub open spec fn dedup(s: Seq<Seq<char>>) -> Seq<Seq<char>>
    decreases s.len(),
{
    if s.len() == 0 {
        Seq::empty()
    } else {
        let rest = dedup(s.drop_last());
        if rest.contains(s.last()) {
            rest
        } else {
            rest.push(s.last())
        }
    }
}

/// The string a member holds, if it is one.
pub open spec fn salvaged_string(v: Option<JsonValue>) -> Option<Seq<char>> {
    match v {
        Some(JsonValue::Str(s)) => Some(s@),
        _ => None,
    }
}

/// What a member holds when it is a number readable as a `u64`.
pub open spec fn salvaged_u64(v: Option<JsonValue>) -> Option<u64> {
    match v {
        Some(JsonValue::Number(n)) => n,
        _ => None,
    }
}

/// The version a loaded document declares: its "version" member read as an
/// unsigned integer and cut to 32 bits, or 0 when there is none.
pub open spec fn declared_version(v: JsonValue) -> u32 {
    match salvaged_u64(member(v, "version"@)) {
        Some(n) => n as u32,
        None => 0,
    }
}

/// The member of `v` named `key`.
pub fn get_member<'a>(v: &'a JsonValue, key: &str) -> (r: Option<&'a JsonValue>)
    ensures
        match r {
            Some(m) => member(*v, key@) == Some(*m),
            None => member(*v, key@) is None,
        },
{
    match v {
        JsonValue::Object(fields) => {
            let wanted = String::from_str(key);
            let mut i: usize = 0;
            while i < fields.len()
                invariant
                    i <= fields.len(),
                    wanted@ == key@,
                    *v == JsonValue::Object(*fields),
                    forall|k: int| 0 <= k < i ==> fields@[k].0@ != key@,
                decreases fields.len() - i,
            {
                if fields[i].0 == wanted {
                    proof {
                        assert(first_named(fields@, key@, i as int));
                        assert(exists|j: int| first_named(fields@, key@, j));
                        let j = choose|j: int| first_named(fields@, key@, j);
                        assert(j == i) by {
                            if j < i {
                                assert(fields@[j].0@ != key@);
                            }
                            if j > i {
                                assert(fields@[i as int].0@ != key@);
                            }
                        }
                        assert(member(*v, key@) == Some(fields@[i as int].1));
                    }
                    return Some(&fields[i].1);
                }
                i = i + 1;
            }
            None
        },
        _ => None,
    }
}

/// The strings that the member `key` of `v` holds, as the salvage reads
/// them.
pub fn strings_at(v: &JsonValue, key: &str) -> (r: Vec<String>)
    ensures
        views(r@) == salvaged_strings(member(*v, key@)),
{
    let mut r: Vec<String> = Vec::new();
    match get_member(v, key) {
        Some(JsonValue::Array(items)) => {
            let mut i: usize = 0;
            assert(items@.subrange(0, 0) =~= Seq::<JsonValue>::empty());
            assert(views(r@) =~= Seq::<Seq<char>>::empty());
            while i < items.len()
                invariant
                    i <= items.len(),
                    views(r@) == string_items(items@.subrange(0, i as int)),
                decreases items.len() - i,
            {
                proof {
                    let post = items@.subrange(0, i as int + 1);
                    assert(post.drop_last() =~= items@.subrange(0, i as int));
                    assert(post.last() == items@[i as int]);
                }
                match &items[i] {
                    JsonValue::Str(s) => {
                        let ghost before = r@;
                        r.push(s.clone());
                        assert(views(r@) =~= views(before).push(s@));
                    },
                    _ => {},
                }
                i = i + 1;
            }
            assert(items@.subrange(0, items.len() as int) =~= items@);
        },
        Some(JsonValue::Str(s)) => {
            r.push(s.clone());
            assert(views(r@) =~= seq![s@]);
        },
        _ => {
            assert(views(r@) =~= Seq::<Seq<char>>::empty());
        },
    }
    r
}

/// The strings of `v`, each once, in order of first occurrence.
pub fn distinct(v: Vec<String>) -> (r: Vec<String>)
    ensures
        views(r@) == dedup(views(v@)),
{
    let mut r: Vec<String> = Vec::new();
    let mut i: usize = 0;
    assert(views(v@).subrange(0, 0) =~= Seq::<Seq<char>>::empty());
    assert(views(r@) =~= Seq::<Seq<char>>::empty());
    while i < v.len()
        invariant
            i <= v.len(),
            views(r@) == dedup(views(v@).subrange(0, i as int)),
        decreases v.len() - i,
    {
        proof {
            let post = views(v@).subrange(0, i as int + 1);
            assert(post.drop_last() =~= views(v@).subrange(0, i as int));
            assert(post.last() == v@[i as int]@);
        }
        let ghost before = r@;
        add_tag(&mut r, v[i].clone());
        proof {
            if !views(before).contains(v@[i as int]@) {
                assert(views(r@) =~= views(before).push(v@[i as int]@));
            }
        }
        i = i + 1;
    }
    assert(views(v@).subrange(0, v.len() as int) =~= views(v@));
    r
}

/// The string that the member `key` of `v` holds, if it is one.
pub fn string_at(v: &JsonValue, key: &str) -> (r: Option<String>)
    ensures
        match r {
            Some(s) => salvaged_string(member(*v, key@)) == Some(s@),
            None => salvaged_string(member(*v, key@)) is None,
        },
{
    match get_member(v, key) {
        Some(JsonValue::Str(s)) => Some(s.clone()),
        _ => None,
    }
}

/// The version that a loaded configuration declares.
pub fn config_version(v: &JsonValue) -> (r: u32)
    ensures
        r == declared_version(*v),
{
    match get_member(v, "version") {
        Some(JsonValue::Number(Some(n))) => *n as u32,
        _ => 0,
    }
}

/// A configuration written before the current schema version cannot be
/// read as it is.
pub fn is_too_old(version: u32) -> (r: bool)
    ensures
        r == (version < CONFIG_FILE_VERSION),
{
    version < CONFIG_FILE_VERSION
}

/// `l` is the shortcut rebuilt from `v`: the name and aliases, icon, command,
/// arguments, tags and identifier that can be read, defaults for the rest and
/// a fresh identifier when none can be read.
pub open spec fn salvaged_from(l: ProgramLink, v: JsonValue) -> bool {
    &&& views(l.name@) == salvaged_strings(member(v, "name"@))
    &&& l.icon_path@ == match salvaged_string(member(v, "icon_path"@)) {
        Some(s) => s,
        None => Seq::<char>::empty(),
    }
    &&& l.run_command@ == match salvaged_string(member(v, "run_command"@)) {
        Some(s) => s,
        None => Seq::<char>::empty(),
    }
    &&& views(l.arguments@) == salvaged_strings(member(v, "arguments"@))
    &&& views(l.tags@) == dedup(salvaged_strings(member(v, "tags"@)))
    &&& match salvaged_string(member(v, "uuid"@)) {
        Some(s) => l.uuid@ == s,
        None => l.uuid@.len() == 36,
    }
    &&& !l.is_admin
    &&& l.is_new_window
}

/// Rebuilds a shortcut from whatever fields of `v` can still be read.
pub fn salvage_link(v: &JsonValue) -> (r: ProgramLink)
    ensures
        salvaged_from(r, *v),
{
    let mut link = ProgramLink::default();
    link.name = strings_at(v, "name");
    match string_at(v, "icon_path") {
        Some(s) => link.icon_path = s,
        None => assert(link.icon_path@ =~= Seq::<char>::empty()),
    }
    match string_at(v, "run_command") {
        Some(s) => link.run_command = s,
        None => assert(link.run_command@ =~= Seq::<char>::empty()),
    }
    link.arguments = strings_at(v, "arguments");
    link.tags = distinct(strings_at(v, "tags"));
    match string_at(v, "uuid") {
        Some(s) => link.uuid = s,
        None => {},
    }
    link
}

/// Rebuilds the configuration from whatever can still be read of `v`: the
/// version (the current one if unreadable), the tag set, and one shortcut
/// for each element of the "program_links" array.
pub fn salvage_config(v: &JsonValue) -> (r: LinkConfigSchema)
    ensures
        r.version == match salvaged_u64(member(*v, "version"@)) {
            Some(n) => n as u32,
            None => CONFIG_FILE_VERSION,
        },
        views(r.tags@) == dedup(salvaged_strings(member(*v, "tags"@))),
        match member(*v, "program_links"@) {
            Some(JsonValue::Array(items)) => {
                &&& r.program_links.len() == items.len()
                &&& forall|i: int|
                    0 <= i < items.len() ==> salvaged_from(#[trigger] r.program_links@[i], items@[i])
            },
            _ => r.program_links.len() == 0,
        },
{
    let mut links: Vec<ProgramLink> = Vec::new();
    match get_member(v, "program_links") {
        Some(JsonValue::Array(items)) => {
            let mut i: usize = 0;
            while i < items.len()
                invariant
                    i <= items.len(),
                    links.len() == i,
                    forall|k: int| 0 <= k < i ==> salvaged_from(#[trigger] links@[k], items@[k]),
                decreases items.len() - i,
            {
                let link = salvage_link(&items[i]);
                links.push(link);
                i = i + 1;
            }
        },
        _ => {},
    }
    let version = match get_member(v, "version") {
        Some(JsonValue::Number(Some(n))) => *n as u32,
        _ => CONFIG_FILE_VERSION,
    };
    LinkConfigSchema { version, tags: distinct(strings_at(v, "tags")), program_links: links }
}

} // verus!
