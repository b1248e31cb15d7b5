use baroboard::icon_cache::IconCache;
use baroboard::links::{
    add_tag, is_executable_path, keep_known, link_for_executable, links_for_saving, move_item,
    remove_link, remove_tag, select_tag, sort_by_tag, LinkPosition, ProgramLink,
};
use baroboard::text::{contains_str, copy_strings, join_slash, split_slash};

fn s(x: &str) -> String {
    x.to_string()
}

fn link(name: &str, icon: &str, tags: &[&str]) -> ProgramLink {
    ProgramLink::new(
        vec![s(name)],
        s(icon),
        s("run.exe"),
        vec![],
        tags.iter().map(|t| s(t)).collect(),
        false,
        true,
    )
}

#[test]
fn new_link_keeps_fields_and_gets_a_uuid() {
    let l = ProgramLink::new(
        vec![s("Notepad"), s("np")],
        s("n.png"),
        s("notepad.exe"),
        vec![s("--x")],
        vec![s("tools")],
        true,
        false,
    );
    assert_eq!(l.name, vec![s("Notepad"), s("np")]);
    assert_eq!(l.icon_path, "n.png");
    assert_eq!(l.run_command, "notepad.exe");
    assert_eq!(l.arguments, vec![s("--x")]);
    assert_eq!(l.tags, vec![s("tools")]);
    assert!(l.is_admin);
    assert!(!l.is_new_window);
    assert_eq!(l.uuid.len(), 36);
    assert_eq!(l.uuid.matches('-').count(), 4);
    let other = ProgramLink::default();
    assert_ne!(other.uuid, l.uuid);
    assert!(other.is_new_window && !other.is_admin);
    assert!(other.name.is_empty());
}

#[test]
fn link_position_new() {
    assert_eq!(LinkPosition::new(7).link_index, 7);
}

#[test]
fn sort_by_tag_keeps_order_of_tagged_links() {
    let links = vec![
        link("a", "a.png", &["work"]),
        link("b", "b.png", &["game"]),
        link("c", "c.png", &["game", "work"]),
    ];
    let r = sort_by_tag(links, s("work"));
    let names: Vec<&str> = r.iter().map(|l| l.name[0].as_str()).collect();
    assert_eq!(names, vec!["a", "c"]);
    assert!(sort_by_tag(vec![link("x", "x", &[])], s("work")).is_empty());
    assert!(sort_by_tag(vec![], s("work")).is_empty());
}

#[test]
fn move_item_follows_the_drop_gap() {
    let mut v = vec![0, 1, 2, 3];
    move_item(&mut v, 0, 3);
    assert_eq!(v, vec![1, 2, 0, 3]);
    let mut v = vec![0, 1, 2, 3];
    move_item(&mut v, 3, 0);
    assert_eq!(v, vec![3, 0, 1, 2]);
    let mut v = vec![0, 1, 2, 3];
    move_item(&mut v, 1, 4);
    assert_eq!(v, vec![0, 2, 3, 1]);
    let mut v = vec![0, 1, 2];
    move_item(&mut v, 1, 2);
    assert_eq!(v, vec![0, 1, 2]);
}

#[test]
fn removing_a_link_releases_its_icon() {
    let mut links = vec![link("a", "shared.png", &[]), link("b", "shared.png", &[])];
    let mut cache = IconCache::new();
    for l in &links {
        cache.register(&l.icon_path, &l.uuid);
    }
    let gone = remove_link(&mut links, &mut cache, 0);
    assert_eq!(gone.name, vec![s("a")]);
    assert_eq!(links.len(), 1);
    assert!(cache.sweep().is_empty());
    let gone = remove_link(&mut links, &mut cache, 0);
    assert_eq!(gone.name, vec![s("b")]);
    assert_eq!(cache.sweep(), vec![s("shared.png")]);
}

#[test]
fn saving_drops_deleted_tags_only() {
    let links = vec![link("a", "a.png", &["work", "old"]), link("b", "b.png", &["game"])];
    let uuids: Vec<String> = links.iter().map(|l| l.uuid.clone()).collect();
    let r = links_for_saving(links, &vec![s("work"), s("game")]);
    assert_eq!(r[0].tags, vec![s("work")]);
    assert_eq!(r[1].tags, vec![s("game")]);
    assert_eq!(r[0].uuid, uuids[0]);
    assert_eq!(r[1].name, vec![s("b")]);
    assert_eq!(keep_known(&vec![s("x"), s("y")], &vec![]), Vec::<String>::new());
}

#[test]
fn tag_set_edits() {
    let mut tags = vec![s("work")];
    add_tag(&mut tags, s("game"));
    add_tag(&mut tags, s("work"));
    assert_eq!(tags, vec![s("work"), s("game")]);
    remove_tag(&mut tags, &s("work"));
    assert_eq!(tags, vec![s("game")]);
    remove_tag(&mut tags, &s("absent"));
    assert_eq!(tags, vec![s("game")]);
}

#[test]
fn sidebar_tag_selection_toggles() {
    let mut current = None;
    select_tag(&mut current, s("work"));
    assert_eq!(current, Some(s("work")));
    select_tag(&mut current, s("game"));
    assert_eq!(current, Some(s("game")));
    select_tag(&mut current, s("game"));
    assert_eq!(current, None);
}

#[test]
fn names_split_and_join_on_slash() {
    assert_eq!(split_slash(&s("记事本/notepad")), vec![s("记事本"), s("notepad")]);
    assert_eq!(split_slash(&s("")), vec![s("")]);
    assert_eq!(split_slash(&s("a/")), vec![s("a"), s("")]);
    assert_eq!(split_slash(&s("/")), vec![s(""), s("")]);
    assert_eq!(join_slash(&vec![s("a"), s("b"), s("c")]), "a/b/c");
    assert_eq!(join_slash(&vec![]), "");
    assert_eq!(join_slash(&vec![s("only")]), "only");
}

#[test]
fn string_list_helpers() {
    let v = vec![s("a"), s("b")];
    assert!(contains_str(&v, &s("b")));
    assert!(!contains_str(&v, &s("c")));
    assert_eq!(copy_strings(&v), v);
}

#[test]
fn dropped_executables() {
    assert!(is_executable_path("C:/apps/tool.exe"));
    assert!(is_executable_path(".exe"));
    assert!(!is_executable_path("C:/apps/readme.txt"));
    assert!(!is_executable_path("exe"));
    assert!(!is_executable_path("C:/apps/tool.EXE"));
    let l = link_for_executable(s("C:/apps/tool.exe"), s("tool.exe"));
    assert_eq!(l.name, vec![s("tool.exe")]);
    assert_eq!(l.icon_path, "C:/apps/tool.exe");
    assert_eq!(l.run_command, "C:/apps/tool.exe");
    assert!(l.arguments.is_empty() && l.tags.is_empty());
    assert!(!l.is_admin && l.is_new_window);
}
