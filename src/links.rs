//! Shortcuts ("program links") and the edits the user makes to the list:
//! filtering by tag, reordering by drag and drop, deleting, and the tag
//! pruning applied before the list is saved.
use vstd::prelude::*;

use crate::icon_cache::{without_user, IconCache};
use crate::text::{contains_str, views};

verus! {

/// Relies on `uuid::Uuid::new_v4` for a random identifier and on `Uuid`'s
/// `Display`, which writes it in the hyphenated form of 36 characters.
#[verifier::external_body]
fn new_uuid() -> (r: String)
    ensures
        r@.len() == 36,
{
    uuid::Uuid::new_v4().to_string()
}

/// A user-defined launchable shortcut.
#[derive(Clone, Debug)]
pub struct ProgramLink {
    /// The display name first, then its aliases.
    pub name: Vec<String>,
    pub icon_path: String,
    pub run_command: String,
    pub arguments: Vec<String>,
    /// The tags the shortcut carries, each once.
    pub tags: Vec<String>,
    pub is_admin: bool,
    pub is_new_window: bool,
    /// Stable identifier, generated once.
    pub uuid: String,
}

impl Default for ProgramLink {
    fn default() -> (r: ProgramLink)
        ensures
            r.name@.len() == 0,
            r.icon_path@.len() == 0,
            r.run_command@.len() == 0,
            r.arguments@.len() == 0,
            r.tags@.len() == 0,
            !r.is_admin,
            r.is_new_window,
            r.uuid@.len() == 36,
    {
        ProgramLink {
            name: Vec::new(),
            icon_path: String::new(),
            run_command: String::new(),
            arguments: Vec::new(),
            tags: Vec::new(),
            is_admin: false,
            is_new_window: true,
            uuid: new_uuid(),
        }
    }
}

impl ProgramLink {
    /// A shortcut with the given fields and a fresh identifier.
    pub fn new(
        name: Vec<String>,
        icon_path: String,
        run_command: String,
        argument: Vec<String>,
        tags: Vec<String>,
        is_admin: bool,
        is_new_window: bool,
    ) -> (r: ProgramLink)
        ensures
            r.name == name,
            r.icon_path == icon_path,
            r.run_command == run_command,
            r.arguments == argument,
            r.tags == tags,
            r.is_admin == is_admin,
            r.is_new_window == is_new_window,
            r.uuid@.len() == 36,
    {
        ProgramLink {
            name,
            icon_path,
            run_command,
            arguments: argument,
            tags,
            is_admin,
            is_new_window,
            uuid: new_uuid(),
        }
    }
}

/// A titled page of shortcuts.
#[derive(Clone, Debug)]
pub struct Page {
    pub program_links: Vec<ProgramLink>,
    pub title: String,
}

/// Where a shortcut stands in the list.
#[derive(Clone, Copy, Debug, PartialEq, Eq, Structural)]
pub struct LinkPosition {
    pub link_index: usize,
}

impl LinkPosition {
    pub fn new(link_index: usize) -> (r: LinkPosition)
        ensures
            r.link_index == link_index,
    {
        LinkPosition { link_index }
    }
}

/// The shortcut carries the tag.
pub open spec fn has_tag(link: ProgramLink, tag: Seq<char>) -> bool {
    views(link.tags@).contains(tag)
}

/// The predicate "carries `tag`".
pub open spec fn tagged(tag: Seq<char>) -> spec_fn(ProgramLink) -> bool {
    |l: ProgramLink| has_tag(l, tag)
}

/// The predicate "is one of `known`".
pub open spec fn known_in(known: Seq<String>) -> spec_fn(String) -> bool {
    |t: String| views(known).contains(t@)
}

/// The shortcuts that carry `tag`, in their order.
pub fn sort_by_tag(program_links: Vec<ProgramLink>, tag: String) -> (r: Vec<ProgramLink>)
    ensures
        r@ == program_links@.filter(tagged(tag@)),
{
    let ghost all = program_links@;
    let mut rest = program_links;
    let mut out: Vec<ProgramLink> = Vec::new();
    assert(all =~= rest@);
    while rest.len() > 0
        invariant
            out@ + rest@.filter(tagged(tag@)) == all.filter(tagged(tag@)),
        decreases rest.len(),
    {
        let ghost before = rest@;
        let link = rest.remove(0);
        proof {
            assert(before =~= seq![link] + rest@);
            rest@.lemma_filter_prepend(link, tagged(tag@));
        }
        let keep = contains_str(&link.tags, &tag);
        let ghost out_before = out@;
        if keep {
            out.push(link);
            assert(out@ + rest@.filter(tagged(tag@)) =~= out_before + (seq![link] + rest@).filter(
                tagged(tag@),
            ));
        } else {
            assert(out@ + rest@.filter(tagged(tag@)) =~= out_before + (seq![link] + rest@).filter(
                tagged(tag@),
            ));
        }
    }
    assert(rest@.filter(tagged(tag@)) =~= Seq::<ProgramLink>::empty()) by {
        reveal(Seq::filter);
    }
    assert(out@ =~= out@ + rest@.filter(tagged(tag@)));
    out
}

/// `s` after the item at `from` is dragged to the gap before position
/// `to`: it is taken out, and put back where that gap lies once it is gone.
pub open spec fn moved<T>(s: Seq<T>, from: int, to: int) -> Seq<T> {
    s.remove(from).insert(
        if from < to {
            to - 1
        } else {
            to
        },
        s[from],
    )
}

/// Moves the item at `from` to the gap before position `to` (`to` may be
/// the length, the gap after the last item).
pub fn move_item<T>(v: &mut Vec<T>, from: usize, to: usize)
    requires
        from < old(v).len(),
        to <= old(v).len(),
    ensures
        final(v)@ == moved(old(v)@, from as int, to as int),
{
    let item = v.remove(from);
    let target = if from < to {
        to - 1
    } else {
        to
    };
    v.insert(target, item);
}

/// Deletes the shortcut at `index`. Its icon loses the shortcut as a user and
/// is staged for the next sweep, which evicts it if nothing else shows it.
pub fn remove_link(links: &mut Vec<ProgramLink>, cache: &mut IconCache, index: usize) -> (removed:
    ProgramLink)
    requires
        index < old(links).len(),
        old(cache).wf(),
    ensures
        removed == old(links)@[index as int],
        final(links)@ == old(links)@.remove(index as int),
        final(cache).wf(),
        final(cache).deps() == without_user(
            old(cache).deps(),
            removed.icon_path@,
            removed.uuid@,
        ),
        final(cache).pending() == old(cache).pending().push(removed.icon_path@),
{
    let removed = links.remove(index);
    cache.unregister(&removed.icon_path, &removed.uuid);
    cache.mark_for_cleanup(removed.icon_path.clone());
    removed
}

/// The strings of `v` that are among `known`, in order.
pub fn keep_known(v: &Vec<String>, known: &Vec<String>) -> (r: Vec<String>)
    ensures
        r@ == v@.filter(known_in(known@)),
{
    let mut r: Vec<String> = Vec::new();
    let mut i: usize = 0;
    assert(v@.subrange(0, 0) =~= Seq::<String>::empty());
    assert(Seq::<String>::empty().filter(known_in(known@)) =~= Seq::<String>::empty()) by {
        reveal(Seq::filter);
    }
    while i < v.len()
        invariant
            i <= v.len(),
            r@ == v@.subrange(0, i as int).filter(known_in(known@)),
        decreases v.len() - i,
    {
        proof {
            assert(v@.subrange(0, i as int + 1) =~= v@.subrange(0, i as int).push(v@[i as int]));
            v@.subrange(0, i as int).lemma_filter_push(v@[i as int], known_in(known@));
        }
        if contains_str(known, &v[i]) {
            r.push(v[i].clone());
        }
        i = i + 1;
    }
    assert(v@.subrange(0, v.len() as int) =~= v@);
    r
}

/// The list as it is saved: each shortcut keeps only the tags that still
/// exist in the tag set `known`; everything else is kept as it is.
pub fn links_for_saving(links: Vec<ProgramLink>, known: &Vec<String>) -> (r: Vec<ProgramLink>)
    ensures
        r.len() == links.len(),
        forall|i: int|
            0 <= i < r.len() ==> {
                &&& (#[trigger] r@[i]).tags@ == links@[i].tags@.filter(known_in(known@))
                &&& r@[i].name == links@[i].name
                &&& r@[i].icon_path == links@[i].icon_path
                &&& r@[i].run_command == links@[i].run_command
                &&& r@[i].arguments == links@[i].arguments
                &&& r@[i].is_admin == links@[i].is_admin
                &&& r@[i].is_new_window == links@[i].is_new_window
                &&& r@[i].uuid == links@[i].uuid
            },
{
    let ghost all = links@;
    let mut rest = links;
    let mut out: Vec<ProgramLink> = Vec::new();
    assert(rest@ =~= all.subrange(0, all.len() as int));
    while rest.len() > 0
        invariant
            out.len() + rest.len() == all.len(),
            rest@ == all.subrange(out.len() as int, all.len() as int),
            forall|i: int|
                0 <= i < out.len() ==> {
                    &&& (#[trigger] out@[i]).tags@ == all[i].tags@.filter(known_in(known@))
                    &&& out@[i].name == all[i].name
                    &&& out@[i].icon_path == all[i].icon_path
                    &&& out@[i].run_command == all[i].run_command
                    &&& out@[i].arguments == all[i].arguments
                    &&& out@[i].is_admin == all[i].is_admin
                    &&& out@[i].is_new_window == all[i].is_new_window
                    &&& out@[i].uuid == all[i].uuid
                },
        decreases rest.len(),
    {
        let ghost k = out.len() as int;
        let mut link = rest.remove(0);
        assert(link == all[k]);
        assert(rest@ =~= all.subrange(k + 1, all.len() as int));
        let tags = keep_known(&link.tags, known);
        link.tags = tags;
        out.push(link);
    }
    out
}

/// Adds `tag` to the tag set unless it is there already.
pub fn add_tag(tags: &mut Vec<String>, tag: String)
    ensures
        views(old(tags)@).contains(tag@) ==> final(tags)@ == old(tags)@,
        !views(old(tags)@).contains(tag@) ==> final(tags)@ == old(tags)@.push(tag),
{
    if !contains_str(tags, &tag) {
        tags.push(tag);
    }
}

/// The predicate "differs from `tag`".
pub open spec fn other_than(tag: Seq<char>) -> spec_fn(String) -> bool {
    |t: String| t@ != tag
}

/// Takes `tag` out of the tag set.
pub fn remove_tag(tags: &mut Vec<String>, tag: &String)
    ensures
        final(tags)@ == old(tags)@.filter(other_than(tag@)),
{
    let ghost all = tags@;
    let mut kept: Vec<String> = Vec::new();
    let mut i: usize = 0;
    assert(all.subrange(0, 0) =~= Seq::<String>::empty());
    assert(Seq::<String>::empty().filter(other_than(tag@)) =~= Seq::<String>::empty()) by {
        reveal(Seq::filter);
    }
    while i < tags.len()
        invariant
            tags@ == all,
            i <= all.len(),
            kept@ == all.subrange(0, i as int).filter(other_than(tag@)),
        decreases all.len() - i,
    {
        proof {
            assert(all.subrange(0, i as int + 1) =~= all.subrange(0, i as int).push(all[i as int]));
            all.subrange(0, i as int).lemma_filter_push(all[i as int], other_than(tag@));
        }
        if tags[i] != *tag {
            kept.push(tags[i].clone());
        }
        i = i + 1;
    }
    assert(all.subrange(0, all.len() as int) =~= all);
    *tags = kept;
}

/// The path names a Windows executable: it ends in ".exe".
pub open spec fn is_exe(path: Seq<char>) -> bool {
    path.len() >= 4 && path.subrange(path.len() - 4, path.len() as int) == ".exe"@
}

/// Whether the path ends in ".exe".
pub fn is_executable_path(path: &str) -> (r: bool)
    ensures
        r == is_exe(path@),
{
    let n = path.unicode_len();
    if n < 4 {
        return false;
    }
    let tail = String::from_str(path.substring_char(n - 4, n));
    tail == String::from_str(".exe")
}

/// The shortcut made for an executable dropped on the window: named after
/// the file, showing and running the executable itself, in a new window.
pub fn link_for_executable(path: String, file_name: String) -> (r: ProgramLink)
    ensures
        r.name@.len() == 1,
        r.name@[0] == file_name,
        r.icon_path == path,
        r.run_command == path,
        r.arguments@.len() == 0,
        r.tags@.len() == 0,
        !r.is_admin,
        r.is_new_window,
        r.uuid@.len() == 36,
{
    let mut name: Vec<String> = Vec::new();
    name.push(file_name);
    let icon = path.clone();
    ProgramLink::new(name, icon, path, Vec::new(), Vec::new(), false, true)
}

/// The tag the sidebar shows as selected, as text: none reads as empty.
pub open spec fn selected_text(current: Option<String>) -> Seq<char> {
    match current {
        Some(t) => t@,
        None => Seq::empty(),
    }
}

/// A click on `tag` in the sidebar: it deselects the selected tag and
/// selects any other.
pub fn select_tag(current: &mut Option<String>, tag: String)
    ensures
        selected_text(*old(current)) == tag@ ==> *final(current) is None,
        selected_text(*old(current)) != tag@ ==> *final(current) == Some(tag),
{
    let is_selected = match current {
        Some(t) => *t == tag,
        None => {
            let empty = tag.unicode_len() == 0;
            proof {
                if empty {
                    assert(tag@ =~= Seq::<char>::empty());
                }
            }
            empty
        },
    };
    if is_selected {
        *current = None;
    } else {
        *current = Some(tag);
    }
}

} // verus!
