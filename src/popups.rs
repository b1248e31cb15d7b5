//! Popup state: which dialog is open, and the working copy of the shortcut
//! that the link dialog edits, with what saving or discarding it does to the
//! list and to the icon cache.
use vstd::prelude::*;

use crate::icon_cache::{without_user, IconCache};
use crate::links::{LinkPosition, ProgramLink};
use crate::text::{copy_strings, join_slash, join_with, split_on, split_slash, views};

verus! {

/// The dialog on screen.
#[derive(Clone, Copy, Debug, PartialEq, Eq, Structural)]
pub enum PopupType {
    LinkConfig,
    LinkDelete,
    CannotSave,
    TagDelete,
    TagNew,
    ConfigTooOld,
    ConfigFormatError,
    ConfigNotAJson,
}

/// The shortcut a delete dialog asks about.
#[derive(Clone, Copy, Debug, PartialEq, Eq, Structural)]
pub struct LinkToDelete {
    pub index_of_the_link: usize,
}

impl LinkToDelete {
    pub fn new() -> (r: LinkToDelete)
        ensures
            r.index_of_the_link == 0,
    {
        LinkToDelete { index_of_the_link: 0 }
    }
}

/// The working copy behind the create/edit shortcut dialog.
#[derive(Clone, Debug)]
pub struct LinkConfig {
    pub is_new_link: bool,
    pub index_of_the_link: usize,
    /// The name and its aliases, separated by '/'.
    pub name: String,
    /// The icon picked in the dialog, shown as a preview.
    pub icon_path: Option<String>,
    pub run_command: String,
    pub arguments: Vec<String>,
    pub tags: Vec<String>,
    pub show_args_config: bool,
}

/// The icon path a saved shortcut gets from the dialog: the picked one, or
/// the empty path when none was picked.
pub open spec fn icon_or_empty(icon: Option<String>) -> Seq<char> {
    match icon {
        Some(p) => p@,
        None => Seq::empty(),
    }
}

impl LinkConfig {
    pub fn new() -> (r: LinkConfig)
        ensures
            !r.is_new_link,
            r.index_of_the_link == 0,
            r.name@.len() == 0,
            r.icon_path is None,
            r.run_command@.len() == 0,
            r.arguments@.len() == 0,
            r.tags@.len() == 0,
            !r.show_args_config,
    {
        LinkConfig {
            is_new_link: false,
            index_of_the_link: 0,
            name: String::new(),
            icon_path: None,
            run_command: String::new(),
            arguments: Vec::new(),
            tags: Vec::new(),
            show_args_config: false,
        }
    }

    /// Loads the shortcut at `position` into the dialog; its names and
    /// aliases are joined with '/'.
    pub fn config_existing_link(&mut self, position: LinkPosition, link: &ProgramLink)
        ensures
            !final(self).is_new_link,
            final(self).index_of_the_link == position.link_index,
            final(self).name@ == join_with(views(link.name@), '/'),
            final(self).icon_path == Some(link.icon_path),
            final(self).run_command == link.run_command,
            final(self).arguments@ == link.arguments@,
            final(self).tags@ == link.tags@,
            final(self).show_args_config == old(self).show_args_config,
    {
        self.is_new_link = false;
        self.index_of_the_link = position.link_index;
        self.name = join_slash(&link.name);
        self.icon_path = Some(link.icon_path.clone());
        self.run_command = link.run_command.clone();
        self.arguments = copy_strings(&link.arguments);
        self.tags = copy_strings(&link.tags);
    }

    /// Empties the dialog for a new shortcut.
    pub fn config_new_link(&mut self)
        ensures
            final(self).is_new_link,
            final(self).index_of_the_link == old(self).index_of_the_link,
            final(self).name@.len() == 0,
            final(self).icon_path is None,
            final(self).run_command@.len() == 0,
            final(self).arguments@.len() == 0,
            final(self).tags@.len() == 0,
            final(self).show_args_config == old(self).show_args_config,
    {
        self.is_new_link = true;
        self.name = String::new();
        self.icon_path = None;
        self.run_command = String::new();
        self.arguments = Vec::new();
        self.tags = Vec::new();
    }

    /// A new icon was picked in the dialog: the previous preview, if any, is
    /// staged for cleanup.
    pub fn choose_icon(&mut self, cache: &mut IconCache, path: String)
        requires
            old(cache).wf(),
        ensures
            final(self).icon_path == Some(path),
            final(self).name == old(self).name,
            final(self).run_command == old(self).run_command,
            final(self).arguments == old(self).arguments,
            final(self).tags == old(self).tags,
            final(self).is_new_link == old(self).is_new_link,
            final(self).index_of_the_link == old(self).index_of_the_link,
            final(self).show_args_config == old(self).show_args_config,
            final(cache).wf(),
            final(cache).deps() == old(cache).deps(),
            final(cache).pending() == match old(self).icon_path {
                Some(p) => old(cache).pending().push(p@),
                None => old(cache).pending(),
            },
    {
        match self.icon_path.take() {
            Some(previous) => cache.mark_for_cleanup(previous),
            None => {},
        }
        self.icon_path = Some(path);
    }

    /// The dialog closes. Unless its content was saved, the previewed icon
    /// is staged for cleanup, since no shortcut may show it.
    pub fn close(&mut self, cache: &mut IconCache, saved: bool)
        requires
            old(cache).wf(),
        ensures
            !final(self).show_args_config,
            final(self).icon_path == old(self).icon_path,
            final(self).name == old(self).name,
            final(self).run_command == old(self).run_command,
            final(self).arguments == old(self).arguments,
            final(self).tags == old(self).tags,
            final(self).is_new_link == old(self).is_new_link,
            final(self).index_of_the_link == old(self).index_of_the_link,
            final(cache).wf(),
            final(cache).deps() == old(cache).deps(),
            final(cache).pending() == match old(self).icon_path {
                Some(p) => if saved {
                    old(cache).pending()
                } else {
                    old(cache).pending().push(p@)
                },
                None => old(cache).pending(),
            },
    {
        self.show_args_config = false;
        if !saved {
            match &self.icon_path {
                Some(p) => cache.mark_for_cleanup(p.clone()),
                None => {},
            }
        }
    }

    /// The shortcut the dialog creates: names cut at '/', the picked icon
    /// (or none), a normal process in a new window, and a fresh identifier.
    pub fn new_link(&self) -> (r: ProgramLink)
        ensures
            views(r.name@) == split_on(self.name@, '/'),
            r.icon_path@ == icon_or_empty(self.icon_path),
            r.run_command == self.run_command,
            r.arguments@ == self.arguments@,
            r.tags@ == self.tags@,
            !r.is_admin,
            r.is_new_window,
            r.uuid@.len() == 36,
    {
        let icon = match &self.icon_path {
            Some(p) => p.clone(),
            None => String::new(),
        };
        ProgramLink::new(
            split_slash(&self.name),
            icon,
            self.run_command.clone(),
            copy_strings(&self.arguments),
            copy_strings(&self.tags),
            false,
            true,
        )
    }

    /// Saves the dialog into the shortcut it was loaded from. The shortcut's
    /// old icon loses it as a user and is staged for cleanup; the new
    /// icon is registered by the next frame that shows it.
    pub fn apply_to(&self, links: &mut Vec<ProgramLink>, cache: &mut IconCache)
        requires
            self.index_of_the_link < old(links).len(),
            old(cache).wf(),
        ensures
            ({
                let i = self.index_of_the_link as int;
                let before = old(links)@[i];
                let after = final(links)@[i];
                &&& final(links).len() == old(links).len()
                &&& forall|j: int|
                    0 <= j < old(links).len() && j != i ==> final(links)@[j] == old(links)@[j]
                &&& views(after.name@) == split_on(self.name@, '/')
                &&& after.icon_path@ == icon_or_empty(self.icon_path)
                &&& after.run_command == self.run_command
                &&& after.arguments@ == self.arguments@
                &&& after.tags@ == self.tags@
                &&& after.is_admin == before.is_admin
                &&& after.is_new_window == before.is_new_window
                &&& after.uuid == before.uuid
                &&& final(cache).wf()
                &&& final(cache).deps() == without_user(
                    old(cache).deps(),
                    before.icon_path@,
                    before.uuid@,
                )
                &&& final(cache).pending() == old(cache).pending().push(before.icon_path@)
            }),
    {
        let i = self.index_of_the_link;
        let ghost old_links = links@;
        let mut link = links.remove(i);
        cache.unregister(&link.icon_path, &link.uuid);
        cache.mark_for_cleanup(link.icon_path.clone());
        link.name = split_slash(&self.name);
        link.icon_path = match &self.icon_path {
            Some(p) => p.clone(),
            None => String::new(),
        };
        link.run_command = self.run_command.clone();
        link.arguments = copy_strings(&self.arguments);
        link.tags = copy_strings(&self.tags);
        links.insert(i, link);
        proof {
            assert forall|j: int| 0 <= j < old_links.len() && j != i implies links@[j]
                == old_links[j] by {
                if j < i {
                    assert(links@[j] == old_links.remove(i as int)[j]);
                } else {
                    assert(links@[j] == old_links.remove(i as int)[j - 1]);
                }
            }
        }
    }
}

/// Which dialog is open, and the data each one works on.
#[derive(Clone, Debug)]
pub struct Popups {
    /// A dialog is open; while it is, the page ignores clicks and drags.
    pub called: bool,
    pub popup_type: Option<PopupType>,
    pub link_config: LinkConfig,
    pub link_to_delete: LinkToDelete,
    pub tag_to_delete: String,
    pub tag_new: String,
}

impl Popups {
    /// The two fields every dialog opening sets.
    pub open spec fn opened(self, kind: PopupType) -> bool {
        self.called && self.popup_type == Some(kind)
    }

    pub fn new() -> (r: Popups)
        ensures
            !r.called,
            r.popup_type is None,
            r.link_to_delete.index_of_the_link == 0,
            r.tag_to_delete@.len() == 0,
            r.tag_new@.len() == 0,
            r.link_config.name@.len() == 0,
            r.link_config.icon_path is None,
    {
        Popups {
            called: false,
            popup_type: None,
            link_config: LinkConfig::new(),
            link_to_delete: LinkToDelete::new(),
            tag_to_delete: String::new(),
            tag_new: String::new(),
        }
    }

    /// Opens the "cannot save the configuration" dialog.
    pub fn cannot_save(&mut self)
        ensures
            *final(self) == (Popups { called: true, popup_type: Some(PopupType::CannotSave), ..*old(self) }),
    {
        self.called = true;
        self.popup_type = Some(PopupType::CannotSave);
    }

    /// Opens the dialog that confirms deleting the shortcut at `position`.
    pub fn delete_link(&mut self, position: LinkPosition)
        ensures
            *final(self) == (Popups {
                called: true,
                popup_type: Some(PopupType::LinkDelete),
                link_to_delete: LinkToDelete { index_of_the_link: position.link_index },
                ..*old(self)
            }),
    {
        self.called = true;
        self.popup_type = Some(PopupType::LinkDelete);
        self.link_to_delete.index_of_the_link = position.link_index;
    }

    /// Opens the link dialog on the shortcut at `position`.
    pub fn config_existing_link(&mut self, position: LinkPosition, link: &ProgramLink)
        ensures
            final(self).opened(PopupType::LinkConfig),
            !final(self).link_config.is_new_link,
            final(self).link_config.index_of_the_link == position.link_index,
            final(self).link_config.name@ == join_with(views(link.name@), '/'),
            final(self).link_config.icon_path == Some(link.icon_path),
            final(self).link_config.run_command == link.run_command,
            final(self).link_config.arguments@ == link.arguments@,
            final(self).link_config.tags@ == link.tags@,
            final(self).link_to_delete == old(self).link_to_delete,
            final(self).tag_to_delete == old(self).tag_to_delete,
            final(self).tag_new == old(self).tag_new,
    {
        self.called = true;
        self.popup_type = Some(PopupType::LinkConfig);
        self.link_config.config_existing_link(position, link);
    }

    /// Opens the link dialog, empty, for a new shortcut.
    pub fn config_new_link(&mut self)
        ensures
            final(self).opened(PopupType::LinkConfig),
            final(self).link_config.is_new_link,
            final(self).link_config.name@.len() == 0,
            final(self).link_config.icon_path is None,
            final(self).link_config.run_command@.len() == 0,
            final(self).link_config.arguments@.len() == 0,
            final(self).link_config.tags@.len() == 0,
            final(self).link_to_delete == old(self).link_to_delete,
            final(self).tag_to_delete == old(self).tag_to_delete,
            final(self).tag_new == old(self).tag_new,
    {
        self.called = true;
        self.popup_type = Some(PopupType::LinkConfig);
        self.link_config.config_new_link();
    }

    /// Opens the dialog that confirms deleting `tag`.
    pub fn delete_tag(&mut self, tag: String)
        ensures
            *final(self) == (Popups {
                called: true,
                popup_type: Some(PopupType::TagDelete),
                tag_to_delete: tag,
                ..*old(self)
            }),
    {
        self.called = true;
        self.popup_type = Some(PopupType::TagDelete);
        self.tag_to_delete = tag;
    }

    /// Opens the dialog that creates a tag, with an empty name.
    pub fn new_tag(&mut self)
        ensures
            final(self).opened(PopupType::TagNew),
            final(self).tag_new@.len() == 0,
            final(self).link_to_delete == old(self).link_to_delete,
            final(self).tag_to_delete == old(self).tag_to_delete,
    {
        self.called = true;
        self.tag_new = String::new();
        self.popup_type = Some(PopupType::TagNew);
    }

    /// Opens the "configuration file too old" dialog.
    pub fn config_file_too_old(&mut self)
        ensures
            *final(self) == (Popups { called: true, popup_type: Some(PopupType::ConfigTooOld), ..*old(self) }),
    {
        self.called = true;
        self.popup_type = Some(PopupType::ConfigTooOld);
    }

    /// Opens the "configuration file unreadable" dialog.
    pub fn config_file_format_error(&mut self)
        ensures
            *final(self) == (Popups {
                called: true,
                popup_type: Some(PopupType::ConfigFormatError),
                ..*old(self)
            }),
    {
        self.called = true;
        self.popup_type = Some(PopupType::ConfigFormatError);
    }

    /// Opens the "configuration file is not JSON" dialog.
    pub fn config_not_a_json(&mut self)
        ensures
            *final(self) == (Popups {
                called: true,
                popup_type: Some(PopupType::ConfigNotAJson),
                ..*old(self)
            }),
    {
        self.called = true;
        self.popup_type = Some(PopupType::ConfigNotAJson);
    }

    /// The open dialog was closed by the user.
    pub fn close(&mut self)
        ensures
            *final(self) == (Popups { called: false, ..*old(self) }),
    {
        self.called = false;
    }
}

} // verus!
