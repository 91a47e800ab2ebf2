//! Menus, and the map from the runtime's numeric ids of custom items to their ids.
use vstd::prelude::*;
use vstd::string::*;
use std::collections::HashMap;

verus! {

broadcast use vstd::std_specs::hash::group_hash_axioms;

/// An item of a menu that the application defines: its id, and the numeric id by which the
/// runtime reports it.
pub struct CustomMenuItem {
    pub id: String,
    pub id_value: u32,
    pub title: String,
}

/// A submenu: its title and its menu.
pub struct Submenu {
    pub title: String,
    pub inner: Menu,
}

/// An entry of a menu.
pub enum MenuEntry {
    CustomItem(CustomMenuItem),
    Submenu(Submenu),
    /// An item the platform provides (a separator, copy, paste, ...).
    NativeItem,
}

/// A menu: its entries, in order.
pub struct Menu {
    pub items: Vec<MenuEntry>,
}

/// The map after visiting `items` in order from `m`: each custom item puts its id under its
/// numeric id (a later item wins), and each submenu is visited in place.
pub open spec fn collect_ids(items: Seq<MenuEntry>, m: Map<u32, String>) -> Map<u32, String>
    decreases items,
{
    if items.len() == 0 {
        m
    } else {
        let next = match items[0] {
            MenuEntry::CustomItem(c) => m.insert(c.id_value, c.id),
            MenuEntry::Submenu(s) => {
                proof {
                    assert(decreases_to!(items => items[0]));
                }
                collect_ids(s.inner.items@, m)
            },
            MenuEntry::NativeItem => m,
        };
        collect_ids(items.subrange(1, items.len() as int), next)
    }
}

/// Puts into `map`, under its numeric id, the id of every custom item of `menu` and of its
/// submenus, visiting the items in order.
pub fn get_menu_ids(map: &mut HashMap<u32, String>, menu: &Menu)
    ensures
        final(map)@ == collect_ids(menu.items@, old(map)@),
    decreases menu,
{
    let ghost items = menu.items@;
    let ghost start = old(map)@;
    let mut i: usize = 0;
    proof {
        assert(items.subrange(0, items.len() as int) =~= items);
    }
    while i < menu.items.len()
        invariant
            items == menu.items@,
            i <= items.len(),
            collect_ids(items, start) == collect_ids(items.subrange(i as int, items.len() as int), map@),
        decreases items.len() - i,
    {
        let ghost rest = items.subrange(i as int, items.len() as int);
        proof {
            assert(rest[0] == items[i as int]);
            assert(rest.subrange(1, rest.len() as int) =~= items.subrange(i + 1, items.len() as int));
        }
        match &menu.items[i] {
            MenuEntry::CustomItem(c) => {
                map.insert(c.id_value, c.id.clone());
            },
            MenuEntry::Submenu(s) => {
                get_menu_ids(map, &s.inner);
            },
            MenuEntry::NativeItem => {},
        }
        i = i + 1;
    }
    proof {
        assert(items.subrange(i as int, items.len() as int) =~= Seq::<MenuEntry>::empty());
    }
}

/// The numeric ids of all custom items of the entries and of their submenus.
pub open spec fn all_id_values(items: Seq<MenuEntry>) -> Set<u32>
    decreases items,
{
    if items.len() == 0 {
        Set::empty()
    } else {
        let here = match items[0] {
            MenuEntry::CustomItem(c) => set![c.id_value],
            MenuEntry::Submenu(s) => {
                proof {
                    assert(decreases_to!(items => items[0]));
                }
                all_id_values(s.inner.items@)
            },
            MenuEntry::NativeItem => Set::empty(),
        };
        here + all_id_values(items.subrange(1, items.len() as int))
    }
}

/// Collecting the ids of a menu keeps every id already in the map and adds exactly the
/// numeric ids of the menu's custom items, those in submenus included.
pub proof fn law_menu_ids_cover_custom_items(items: Seq<MenuEntry>, m: Map<u32, String>)
    ensures
        collect_ids(items, m).dom() == m.dom() + all_id_values(items),
    decreases items,
{
    if items.len() > 0 {
        let rest = items.subrange(1, items.len() as int);
        match items[0] {
            MenuEntry::CustomItem(c) => {
                law_menu_ids_cover_custom_items(rest, m.insert(c.id_value, c.id));
            },
            MenuEntry::Submenu(s) => {
                assert(decreases_to!(items => items[0]));
                law_menu_ids_cover_custom_items(s.inner.items@, m);
                law_menu_ids_cover_custom_items(rest, collect_ids(s.inner.items@, m));
            },
            MenuEntry::NativeItem => {
                law_menu_ids_cover_custom_items(rest, m);
            },
        }
        assert(collect_ids(items, m).dom() =~= m.dom() + all_id_values(items));
    } else {
        assert(m.dom() + Set::<u32>::empty() =~= m.dom());
    }
}

/// Whether two lists of entries are the same menu: entry by entry the same items, submenus
/// with the same titles and the same entries.
pub open spec fn same_entries(a: Seq<MenuEntry>, b: Seq<MenuEntry>) -> bool
    decreases a,
{
    if a.len() != b.len() {
        false
    } else if a.len() == 0 {
        true
    } else {
        let n = a.len() - 1;
        &&& same_entries(a.subrange(0, n), b.subrange(0, n))
        &&& match (a[n], b[n]) {
            (MenuEntry::CustomItem(x), MenuEntry::CustomItem(y)) => x == y,
            (MenuEntry::Submenu(x), MenuEntry::Submenu(y)) => {
                proof {
                    assert(decreases_to!(a => a[n]));
                }
                x.title == y.title && same_entries(x.inner.items@, y.inner.items@)
            },
            (MenuEntry::NativeItem, MenuEntry::NativeItem) => true,
            _ => false,
        }
    }
}

/// A copy of a menu.
pub fn copy_menu(menu: &Menu) -> (r: Menu)
    ensures
        same_entries(menu.items@, r.items@),
    decreases menu,
{
    let mut items: Vec<MenuEntry> = Vec::new();
    let mut i: usize = 0;
    while i < menu.items.len()
        invariant
            i <= menu.items@.len(),
            same_entries(menu.items@.take(i as int), items@),
        decreases menu.items@.len() - i,
    {
        let entry = match &menu.items[i] {
            MenuEntry::CustomItem(c) => MenuEntry::CustomItem(
                CustomMenuItem { id: c.id.clone(), id_value: c.id_value, title: c.title.clone() },
            ),
            MenuEntry::Submenu(s) => MenuEntry::Submenu(
                Submenu { title: s.title.clone(), inner: copy_menu(&s.inner) },
            ),
            MenuEntry::NativeItem => MenuEntry::NativeItem,
        };
        let ghost before = items@;
        items.push(entry);
        proof {
            let a = menu.items@.take(i + 1);
            assert(a.subrange(0, i as int) =~= menu.items@.take(i as int));
            assert(items@.subrange(0, i as int) =~= before);
            assert(a[i as int] == menu.items@[i as int]);
        }
        i = i + 1;
    }
    proof {
        assert(menu.items@.take(i as int) =~= menu.items@);
    }
    Menu { items }
}

} // verus!
