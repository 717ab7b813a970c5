//! The bookkeeping of the action registry: which command names this
//! service registered (and under which command id), which of them are
//! toggleable with what on/off state, and which appear in the Extensions
//! menu. The host registration itself is made by the caller between
//! [`ReaperActionRegistry::begin_registration`] and
//! [`ReaperActionRegistry::finish_registration`].
use vstd::prelude::*;

use crate::menu::{derive_menu_group, menu_group_spec};
use crate::strmap::{StrMap, str_eq};

verus! {

/// Action metadata kept for building the Extensions menu.
pub struct MenuActionDef {
    /// REAPER command name (e.g. `FTS_SESSION_TOGGLE_PLAYBACK`).
    pub command_name: String,
    /// Name shown in the menu (the description given at registration).
    pub display_name: String,
    /// Menu group derived from the command name (e.g. `Session`).
    pub group: String,
}

/// The characters of a menu entry: command name, display name, group.
pub open spec fn menu_entry_view(d: MenuActionDef) -> (Seq<char>, Seq<char>, Seq<char>) {
    (d.command_name@, d.display_name@, d.group@)
}

/// Whether a menu entry belongs to a command other than `name`.
pub open spec fn other_command(name: Seq<char>) -> spec_fn((Seq<char>, Seq<char>, Seq<char>)) -> bool {
    |e: (Seq<char>, Seq<char>, Seq<char>)| e.0 != name
}

/// The action registry: what this service registered with the host.
pub struct ReaperActionRegistry {
    registered: StrMap<u32>,
    toggles: StrMap<bool>,
    menu: Vec<MenuActionDef>,
}

impl ReaperActionRegistry {
    /// The internal maps are well formed.
    pub closed spec fn wf(&self) -> bool {
        self.registered.wf() && self.toggles.wf()
    }

    /// Command name to command id, for every action registered through this service.
    pub closed spec fn registered(&self) -> Map<Seq<char>, u32> {
        self.registered@
    }

    /// Command name to on/off state, for every action registered as toggleable.
    pub closed spec fn toggles(&self) -> Map<Seq<char>, bool> {
        self.toggles@
    }

    /// The menu entries, in the order they were added.
    pub closed spec fn menu(&self) -> Seq<(Seq<char>, Seq<char>, Seq<char>)> {
        self.menu@.map_values(|d: MenuActionDef| menu_entry_view(d))
    }

    /// An empty registry.
    pub fn new() -> (r: Self)
        ensures
            r.wf(),
            r.registered() == Map::<Seq<char>, u32>::empty(),
            r.toggles() == Map::<Seq<char>, bool>::empty(),
            r.menu() == Seq::<(Seq<char>, Seq<char>, Seq<char>)>::empty(),
    {
        let r = ReaperActionRegistry { registered: StrMap::new(), toggles: StrMap::new(), menu: Vec::new() };
        assert(r.menu() =~= Seq::<(Seq<char>, Seq<char>, Seq<char>)>::empty());
        r
    }

    /// The command id under which this service registered `command_name`.
    pub fn registered_command_id(&self, command_name: &str) -> (r: Option<u32>)
        requires
            self.wf(),
        ensures
            r == (if self.registered().contains_key(command_name@) {
                Some(self.registered()[command_name@])
            } else {
                None
            }),
    {
        self.registered.get(command_name)
    }

    /// First half of registering an action. If this service already
    /// registered `command_name`, its command id is returned and nothing
    /// changes. Otherwise the caller must now register the action with the
    /// host; a toggleable action starts with its toggle state off.
    pub fn begin_registration(&mut self, command_name: &str, toggleable: bool) -> (r: Option<u32>)
        requires
            old(self).wf(),
        ensures
            final(self).wf(),
            final(self).registered() == old(self).registered(),
            final(self).menu() == old(self).menu(),
            old(self).registered().contains_key(command_name@) ==> r == Some(
                old(self).registered()[command_name@],
            ) && final(self).toggles() == old(self).toggles(),
            !old(self).registered().contains_key(command_name@) ==> r is None
                && final(self).toggles() == (if toggleable {
                old(self).toggles().insert(command_name@, false)
            } else {
                old(self).toggles()
            }),
    {
        if let Some(id) = self.registered.get(command_name) {
            return Some(id);
        }
        if toggleable {
            let owned = crate::text::string_of(&crate::text::chars_of(command_name));
            self.toggles.insert(owned, false);
        }
        None
    }

    /// Second half of registering an action, given the command id that the
    /// host gave (`None` or `0` when registration failed). On success the
    /// action is recorded under that id and, when `show_in_menu`, a menu
    /// entry is added with the group derived from the command name; the id
    /// is returned. On failure nothing changes and `0` is returned.
    pub fn finish_registration(
        &mut self,
        command_name: &str,
        description: &str,
        show_in_menu: bool,
        host_result: Option<u32>,
    ) -> (r: u32)
        requires
            old(self).wf(),
        ensures
            final(self).wf(),
            final(self).toggles() == old(self).toggles(),
            match host_result {
                Some(id) if id > 0 => {
                    &&& r == id
                    &&& final(self).registered() == old(self).registered().insert(command_name@, id)
                    &&& final(self).menu() == (if show_in_menu {
                        old(self).menu().push(
                            (command_name@, description@, menu_group_spec(command_name@)),
                        )
                    } else {
                        old(self).menu()
                    })
                },
                _ => {
                    &&& r == 0
                    &&& final(self).registered() == old(self).registered()
                    &&& final(self).menu() == old(self).menu()
                },
            },
    {
        if let Some(id) = host_result {
            if id == 0 {
                return 0;
            }
                let name = crate::text::string_of(&crate::text::chars_of(command_name));
                self.registered.insert(name, id);
                if show_in_menu {
                    let group = derive_menu_group(command_name);
                    let def = MenuActionDef {
                        command_name: crate::text::string_of(&crate::text::chars_of(command_name)),
                        display_name: crate::text::string_of(&crate::text::chars_of(description)),
                        group,
                    };
                    let ghost before = self.menu();
                    self.menu.push(def);
                    assert(self.menu() =~= before.push(
                        (command_name@, description@, menu_group_spec(command_name@)),
                    ));
                }
                id
        } else {
            0
        }
    }

    /// Forget an action registered through this service: its command id,
    /// its menu entries and its toggle state. Returns whether it was
    /// registered; when it was not, nothing changes.
    pub fn unregister_action(&mut self, command_name: &str) -> (r: bool)
        requires
            old(self).wf(),
        ensures
            final(self).wf(),
            r == old(self).registered().contains_key(command_name@),
            r ==> {
                &&& final(self).registered() == old(self).registered().remove(command_name@)
                &&& final(self).toggles() == old(self).toggles().remove(command_name@)
                &&& final(self).menu() == old(self).menu().filter(other_command(command_name@))
            },
            !r ==> {
                &&& final(self).registered() == old(self).registered()
                &&& final(self).toggles() == old(self).toggles()
                &&& final(self).menu() == old(self).menu()
            },
    {
        let removed = self.registered.remove(command_name);
        match removed {
            Some(_) => {
                let ghost before = self.menu();
                let mut kept: Vec<MenuActionDef> = Vec::new();
                let mut old_menu = Vec::new();
                std::mem::swap(&mut old_menu, &mut self.menu);
                assert(old_menu@.map_values(|d: MenuActionDef| menu_entry_view(d)) == before);
                let mut it = old_menu;
                let ghost total = before.len();
                let n0 = it.len();
                assert(total == n0);
                proof {
                    assert(before.take(0) =~= Seq::<(Seq<char>, Seq<char>, Seq<char>)>::empty());
                    reveal_with_fuel(Seq::filter, 1);
                }
                let mut i: usize = 0;
                while it.len() > 0
                    invariant
                        total == before.len(),
                        total <= usize::MAX,
                        it@.len() + i == total,
                        i <= total,
                        forall|j: int| 0 <= j < it@.len() ==> menu_entry_view(#[trigger] it@[j])
                            == before[i + j],
                        kept@.map_values(|d: MenuActionDef| menu_entry_view(d)) == before.take(
                            i as int,
                        ).filter(other_command(command_name@)),
                    decreases it.len(),
                {
                    let ghost it_before = it@;
                    let d = it.remove(0);
                    assert(menu_entry_view(d) == before[i as int]);
                    assert forall|j: int| 0 <= j < it@.len() implies menu_entry_view(#[trigger] it@[j])
                        == before[i + 1 + j] by {
                        assert(it@[j] == it_before[j + 1]);
                    }
                    let ghost prev = kept@.map_values(|d: MenuActionDef| menu_entry_view(d));
                    proof {
                        assert(before.take(i + 1).drop_last() =~= before.take(i as int));
                        assert(before.take(i + 1).last() == before[i as int]);
                        reveal_with_fuel(Seq::filter, 1);
                    }
                    if !str_eq(d.command_name.as_str(), command_name) {
                        kept.push(d);
                        assert(kept@.map_values(|d: MenuActionDef| menu_entry_view(d)) =~= prev.push(
                            before[i as int],
                        ));
                    }
                    i = i + 1;
                }
                assert(before.take(total as int) =~= before);
                self.menu = kept;
                self.toggles.remove(command_name);
                true
            },
            None => false,
        }
    }

    /// Set the on/off state of a toggleable action; an action that was not
    /// registered as toggleable is left alone.
    pub fn set_toggle_state(&mut self, command_name: &str, is_on: bool)
        requires
            old(self).wf(),
        ensures
            final(self).wf(),
            final(self).registered() == old(self).registered(),
            final(self).menu() == old(self).menu(),
            final(self).toggles() == (if old(self).toggles().contains_key(command_name@) {
                old(self).toggles().insert(command_name@, is_on)
            } else {
                old(self).toggles()
            }),
    {
        if self.toggles.contains_key(command_name) {
            let owned = crate::text::string_of(&crate::text::chars_of(command_name));
            self.toggles.insert(owned, is_on);
        }
    }

    /// The on/off state of a toggleable action, or `None` for one that is not toggleable.
    pub fn get_toggle_state(&self, command_name: &str) -> (r: Option<bool>)
        requires
            self.wf(),
        ensures
            r == (if self.toggles().contains_key(command_name@) {
                Some(self.toggles()[command_name@])
            } else {
                None
            }),
    {
        self.toggles.get(command_name)
    }

    /// The state the host shows for a toggleable action: its recorded state, or off.
    pub fn read_toggle_state(&self, command_name: &str) -> (r: bool)
        requires
            self.wf(),
        ensures
            r == (self.toggles().contains_key(command_name@) && self.toggles()[command_name@]),
    {
        match self.toggles.get(command_name) {
            Some(b) => b,
            None => false,
        }
    }

    /// The menu entries, in the order they were added.
    pub fn menu_actions(&self) -> (r: &[MenuActionDef])
        ensures
            r@.map_values(|d: MenuActionDef| menu_entry_view(d)) == self.menu(),
    {
        self.menu.as_slice()
    }
}

} // verus!
