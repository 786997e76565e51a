//! The inventory of tools and materials.

use vstd::prelude::*;
use crate::checkout::CheckoutLogEntry;
use crate::ids::copy_texts;
use crate::text::{parse_i64, parsed_i64, same_text, split_pieces, split_text, trim_text, trimmed};

verus! {

/// One kind of tool or material.
#[derive(Clone, Debug, Default)]
pub struct InventoryItem {
    pub name: String,
    pub is_material: bool,
    pub is_tool: bool,
    pub checked_quantity: u64,
    /// The number in stock; -1 stands for low, -2 for medium, -3 for high.
    pub quantity: i64,
    pub location_room: String,
    pub location_area: String,
    pub reorder_url: String,
    pub specific_name: String,
    pub serial_number: String,
    pub brand: String,
    pub model_number: String,
    pub uuids: Vec<String>,
    pub is_kit: bool,
    pub kit: Option<String>,
    pub kit_items: Vec<String>,
}

/// An item as a value.
pub struct ItemModel {
    pub name: Seq<char>,
    pub is_material: bool,
    pub is_tool: bool,
    pub checked_quantity: u64,
    pub quantity: i64,
    pub location_room: Seq<char>,
    pub location_area: Seq<char>,
    pub reorder_url: Seq<char>,
    pub specific_name: Seq<char>,
    pub serial_number: Seq<char>,
    pub brand: Seq<char>,
    pub model_number: Seq<char>,
    pub uuids: Seq<Seq<char>>,
    pub is_kit: bool,
    pub kit: Option<Seq<char>>,
    pub kit_items: Seq<Seq<char>>,
}

impl DeepView for InventoryItem {
    type V = ItemModel;

    open spec fn deep_view(&self) -> ItemModel {
        ItemModel {
            name: self.name@,
            is_material: self.is_material,
            is_tool: self.is_tool,
            checked_quantity: self.checked_quantity,
            quantity: self.quantity,
            location_room: self.location_room@,
            location_area: self.location_area@,
            reorder_url: self.reorder_url@,
            specific_name: self.specific_name@,
            serial_number: self.serial_number@,
            brand: self.brand@,
            model_number: self.model_number@,
            uuids: self.uuids.deep_view(),
            is_kit: self.is_kit,
            kit: match self.kit {
                Some(k) => Some(k@),
                None => None,
            },
            kit_items: self.kit_items.deep_view(),
        }
    }
}

/// The stock that a cell gives: -1 for `Low`, -2 for `Medium`, -3 for
/// `High`, else the number it holds, and 0 where it holds none.
pub open spec fn quantity_of(cell: Seq<char>) -> i64 {
    if cell == "Low"@ {
        -1i64
    } else if cell == "Medium"@ {
        -2i64
    } else if cell == "High"@ {
        -3i64
    } else {
        match parsed_i64(cell) {
            Some(n) => n,
            None => 0i64,
        }
    }
}

/// The kit that a cell names: the cell without the white space at its
/// ends, where anything is left of it.
pub open spec fn kit_of(cell: Seq<char>) -> Option<Seq<char>> {
    if trimmed(cell).len() > 0 {
        Some(trimmed(cell))
    } else {
        None
    }
}

/// The item that a row of the sheet describes, as a value.
pub open spec fn item_of_line(line: Seq<Seq<char>>) -> ItemModel {
    ItemModel {
        name: line[0],
        is_material: line[1] == "M"@,
        is_tool: line[1] == "T"@,
        checked_quantity: 0,
        quantity: quantity_of(line[2]),
        location_room: line[3],
        location_area: line[4],
        reorder_url: line[5],
        specific_name: line[6],
        serial_number: line[7],
        brand: line[8],
        model_number: line[9],
        uuids: split_pieces(line[10], seq![',', '\n']),
        is_kit: false,
        kit: kit_of(line[11]),
        kit_items: Seq::empty(),
    }
}

/// The stock that a cell gives.
pub fn read_quantity(cell: &str) -> (r: i64)
    ensures
        r == quantity_of(cell@),
{
    if same_text(cell, "Low") {
        -1
    } else if same_text(cell, "Medium") {
        -2
    } else if same_text(cell, "High") {
        -3
    } else {
        match parse_i64(cell) {
            Some(n) => n,
            None => 0,
        }
    }
}

/// The kit that a cell names.
pub fn read_kit(cell: &str) -> (r: Option<String>)
    ensures
        match r {
            Some(k) => kit_of(cell@) == Some(k@),
            None => kit_of(cell@) is None,
        },
{
    let name = trim_text(cell);
    proof {
        reveal_strlit("");
    }
    if same_text(name.as_str(), "") {
        assert(name@ =~= Seq::<char>::empty());
        None
    } else {
        assert(name@.len() > 0) by {
            if name@.len() == 0 {
                assert(name@ =~= ""@);
            }
        }
        Some(name)
    }
}

impl InventoryItem {
    /// The item that a row of the sheet describes: name, kind (`M` for a
    /// material, `T` for a tool), stock, room, area, reorder address,
    /// specific name, serial number, brand, model number, identifiers
    /// (separated by commas or line breaks) and kit, in this order.
    pub fn new_from_line(line: Vec<String>) -> (r: InventoryItem)
        requires
            line@.len() >= 12,
        ensures
            r.deep_view() == item_of_line(line.deep_view()),
    {
        let mut separators: Vec<char> = Vec::new();
        separators.push(',');
        separators.push('\n');
        assert(separators@ =~= seq![',', '\n']);
        let ghost cells = line.deep_view();
        assert(forall|i: int| 0 <= i < line@.len() ==> cells[i] == #[trigger] line@[i]@);
        let r = InventoryItem {
            name: line[0].clone(),
            is_material: same_text(line[1].as_str(), "M"),
            is_tool: same_text(line[1].as_str(), "T"),
            checked_quantity: 0,
            quantity: read_quantity(line[2].as_str()),
            location_room: line[3].clone(),
            location_area: line[4].clone(),
            reorder_url: line[5].clone(),
            specific_name: line[6].clone(),
            serial_number: line[7].clone(),
            brand: line[8].clone(),
            model_number: line[9].clone(),
            uuids: split_text(line[10].as_str(), &separators),
            is_kit: false,
            kit: read_kit(line[11].as_str()),
            kit_items: Vec::new(),
        };
        proof {
            assert(r.kit_items.deep_view() =~= Seq::<Seq<char>>::empty());
        }
        r
    }

    /// A copy of the item.
    pub fn duplicate(&self) -> (r: InventoryItem)
        ensures
            r.deep_view() == self.deep_view(),
    {
        InventoryItem {
            name: self.name.clone(),
            is_material: self.is_material,
            is_tool: self.is_tool,
            checked_quantity: self.checked_quantity,
            quantity: self.quantity,
            location_room: self.location_room.clone(),
            location_area: self.location_area.clone(),
            reorder_url: self.reorder_url.clone(),
            specific_name: self.specific_name.clone(),
            serial_number: self.serial_number.clone(),
            brand: self.brand.clone(),
            model_number: self.model_number.clone(),
            uuids: copy_texts(&self.uuids),
            is_kit: self.is_kit,
            kit: match &self.kit {
                Some(k) => Some(k.clone()),
                None => None,
            },
            kit_items: copy_texts(&self.kit_items),
        }
    }
}

/// A request to restock an item.
#[derive(Clone, Debug, Default)]
pub struct RestockNotice {
    pub name: String,
    pub current_quantity: String,
    pub requested_quantity: String,
    pub notes: String,
    pub notified: bool,
    pub email: String,
    pub authorized: bool,
}

/// The inventory as last read, and the requests to restock.
#[derive(Clone, Debug, Default)]
pub struct Inventory {
    pub last_updated: u64,
    pub items: Vec<InventoryItem>,
    pub needs_restock: Vec<RestockNotice>,
    pub sent_restock_notice: bool,
}

/// The first item at or after `from` with the name; the length of the list
/// where none has it.
pub open spec fn find_item(items: Seq<ItemModel>, name: Seq<char>, from: int) -> int
    decreases items.len() - from,
{
    if from >= items.len() {
        items.len() as int
    } else if items[from].name == name {
        from
    } else {
        find_item(items, name, from + 1)
    }
}

/// The first item at or after `from` that has the identifier among its
/// own; the length of the list where none has.
pub open spec fn find_item_by_uuid(items: Seq<ItemModel>, uuid: Seq<char>, from: int) -> int
    decreases items.len() - from,
{
    if from >= items.len() {
        items.len() as int
    } else if items[from].uuids.contains(uuid) {
        from
    } else {
        find_item_by_uuid(items, uuid, from + 1)
    }
}

/// How many of the first `n` checkouts name the item.
pub open spec fn times_checked_out(checkouts: Seq<Seq<Seq<char>>>, name: Seq<char>, n: int) -> int
    decreases n,
{
    if n <= 0 {
        0
    } else {
        times_checked_out(checkouts, name, n - 1) + if checkouts[n - 1].contains(name) {
            1int
        } else {
            0int
        }
    }
}

/// The item lists of the checkouts.
pub open spec fn item_lists(checkouts: Seq<CheckoutLogEntry>) -> Seq<Seq<Seq<char>>> {
    Seq::new(checkouts.len(), |i: int| checkouts[i].items.deep_view())
}

/// Some item belongs to the kit of this name.
pub open spec fn kit_named(items: Seq<ItemModel>, name: Seq<char>, n: int) -> bool
    decreases n,
{
    if n <= 0 {
        false
    } else {
        kit_named(items, name, n - 1) || items[n - 1].kit == Some(name)
    }
}

/// The names of the items among the first `n` that belong to the kit,
/// the kit itself left out, in their order.
pub open spec fn kit_members(items: Seq<ItemModel>, name: Seq<char>, n: int) -> Seq<Seq<char>>
    decreases n,
{
    if n <= 0 {
        Seq::empty()
    } else if items[n - 1].kit == Some(name) && items[n - 1].name != name {
        kit_members(items, name, n - 1).push(items[n - 1].name)
    } else {
        kit_members(items, name, n - 1)
    }
}

/// The item at place `j` after the kits were linked: the first item with
/// the name of a kit is marked as the kit and lists the kit's members;
/// every other item is as it was.
pub open spec fn linked_item(items: Seq<ItemModel>, j: int) -> ItemModel {
    if kit_named(items, items[j].name, items.len() as int) && find_item(items, items[j].name, 0) == j {
        ItemModel {
            is_kit: true,
            kit_items: kit_members(items, items[j].name, items.len() as int),
            ..items[j]
        }
    } else {
        items[j]
    }
}

/// The items after their kits were linked.
pub open spec fn with_kits_linked(items: Seq<ItemModel>) -> Seq<ItemModel> {
    Seq::new(items.len(), |j: int| linked_item(items, j))
}

/// Whether the item belongs to the kit of the name.
fn in_kit(item: &InventoryItem, name: &String) -> (r: bool)
    ensures
        r == (item.deep_view().kit == Some(name@)),
{
    match &item.kit {
        Some(k) => *k == *name,
        None => false,
    }
}

/// Whether the list holds the text.
pub fn holds_text(texts: &Vec<String>, text: &str) -> (r: bool)
    ensures
        r == texts.deep_view().contains(text@),
{
    let wanted: String = text.to_owned();
    let mut i: usize = 0;
    while i < texts.len()
        invariant
            0 <= i <= texts@.len(),
            wanted@ == text@,
            forall|j: int| 0 <= j < i ==> texts.deep_view()[j] != text@,
        decreases texts@.len() - i,
    {
        if texts[i] == wanted {
            assert(texts.deep_view()[i as int] == text@);
            return true;
        }
        i = i + 1;
    }
    false
}

impl Inventory {
    /// An inventory that was never read.
    pub fn new() -> (r: Inventory)
        ensures
            r.last_updated == 0,
            r.items@.len() == 0,
            r.needs_restock@.len() == 0,
            !r.sent_restock_notice,
    {
        Inventory { last_updated: 0, items: Vec::new(), needs_restock: Vec::new(), sent_restock_notice: false }
    }

    /// The place of the first item with the name; the number of items where
    /// none has it.
    fn position_of(&self, name: &str) -> (r: usize)
        ensures
            r == find_item(self.items.deep_view(), name@, 0),
            r <= self.items@.len(),
    {
        let wanted: String = name.to_owned();
        let mut i: usize = 0;
        while i < self.items.len()
            invariant
                0 <= i <= self.items@.len(),
                wanted@ == name@,
                find_item(self.items.deep_view(), name@, 0) == find_item(
                    self.items.deep_view(),
                    name@,
                    i as int,
                ),
            decreases self.items@.len() - i,
        {
            if self.items[i].name == wanted {
                return i;
            }
            i = i + 1;
        }
        i
    }

    /// A copy of the first item with the name.
    pub fn get_item_by_name(&self, name: &str) -> (r: Option<InventoryItem>)
        ensures
            ({
                let all = self.items.deep_view();
                let i = find_item(all, name@, 0);
                &&& r is Some == (i < all.len())
                &&& r is Some ==> r->0.deep_view() == all[i]
            }),
    {
        let i = self.position_of(name);
        if i < self.items.len() {
            Some(self.items[i].duplicate())
        } else {
            None
        }
    }

    /// A copy of the first item that has the identifier among its own.
    pub fn get_item_by_uuid(&self, uuid: &str) -> (r: Option<InventoryItem>)
        ensures
            ({
                let all = self.items.deep_view();
                let i = find_item_by_uuid(all, uuid@, 0);
                &&& 0 <= i <= all.len()
                &&& r is Some == (i < all.len())
                &&& r is Some ==> r->0.deep_view() == all[i]
            }),
    {
        let mut i: usize = 0;
        while i < self.items.len()
            invariant
                0 <= i <= self.items@.len(),
                find_item_by_uuid(self.items.deep_view(), uuid@, 0) == find_item_by_uuid(
                    self.items.deep_view(),
                    uuid@,
                    i as int,
                ),
            decreases self.items@.len() - i,
        {
            if holds_text(&self.items[i].uuids, uuid) {
                return Some(self.items[i].duplicate());
            }
            i = i + 1;
        }
        None
    }

    /// Puts the item in the place of the first one with the same name, or,
    /// where there is none, after the others.
    pub fn update_item(&mut self, item: InventoryItem)
        ensures
            ({
                let before = old(self).items.deep_view();
                let i = find_item(before, item.name@, 0);
                final(self).items.deep_view() == (if i < before.len() {
                    before.update(i, item.deep_view())
                } else {
                    before.push(item.deep_view())
                })
            }),
            final(self).last_updated == old(self).last_updated,
            final(self).needs_restock@ == old(self).needs_restock@,
            final(self).sent_restock_notice == old(self).sent_restock_notice,
    {
        let ghost before = self.items.deep_view();
        let i = self.position_of(item.name.as_str());
        if i < self.items.len() {
            self.items[i] = item;
            proof {
                assert(self.items.deep_view() =~= before.update(i as int, item.deep_view()));
            }
        } else {
            self.items.push(item);
            proof {
                assert(self.items.deep_view() =~= before.push(item.deep_view()));
            }
        }
    }

    /// Replaces the items by those that the rows of the sheet describe, with
    /// their kits linked, read at `now`.
    pub fn set_items(&mut self, rows: &Vec<Vec<String>>, now: u64)
        requires
            forall|i: int| 0 <= i < rows@.len() ==> (#[trigger] rows@[i])@.len() >= 12,
        ensures
            final(self).items.deep_view() == with_kits_linked(
                Seq::new(rows@.len(), |i: int| item_of_line(rows.deep_view()[i])),
            ),
            final(self).last_updated == now,
            final(self).needs_restock@ == old(self).needs_restock@,
            final(self).sent_restock_notice == old(self).sent_restock_notice,
    {
        let ghost cells = rows.deep_view();
        let mut items: Vec<InventoryItem> = Vec::new();
        let mut i: usize = 0;
        while i < rows.len()
            invariant
                0 <= i <= rows@.len(),
                cells == rows.deep_view(),
                forall|k: int| 0 <= k < rows@.len() ==> (#[trigger] rows@[k])@.len() >= 12,
                items@.len() == i,
                forall|k: int| 0 <= k < i ==> (#[trigger] items@[k]).deep_view() == item_of_line(cells[k]),
            decreases rows@.len() - i,
        {
            assert(cells[i as int] == rows@[i as int].deep_view());
            let line = copy_texts(&rows[i]);
            assert(line@.len() == line.deep_view().len());
            items.push(InventoryItem::new_from_line(line));
            i = i + 1;
        }
        proof {
            assert(items.deep_view() =~= Seq::new(rows@.len(), |i: int| item_of_line(cells[i])));
        }
        self.items = items;
        self.last_updated = now;
        self.link_kits();
    }

    /// Links the kits: the first item that has the name of a kit is marked
    /// as a kit and gets the names of the kit's other members; nothing else
    /// changes.
    pub fn link_kits(&mut self)
        ensures
            final(self).items.deep_view() == with_kits_linked(old(self).items.deep_view()),
            final(self).last_updated == old(self).last_updated,
            final(self).needs_restock@ == old(self).needs_restock@,
            final(self).sent_restock_notice == old(self).sent_restock_notice,
    {
        let ghost all = self.items.deep_view();
        let count = self.items.len();
        let mut linked: Vec<InventoryItem> = Vec::new();
        let mut j: usize = 0;
        while j < count
            invariant
                0 <= j <= count,
                count == self.items@.len(),
                self.items@ == old(self).items@,
                all == self.items.deep_view(),
                self.last_updated == old(self).last_updated,
                self.needs_restock@ == old(self).needs_restock@,
                self.sent_restock_notice == old(self).sent_restock_notice,
                linked@.len() == j,
                forall|k: int| 0 <= k < j ==> (#[trigger] linked@[k]).deep_view() == linked_item(all, k),
            decreases count - j,
        {
            let mut item = self.items[j].duplicate();
            let first = self.position_of(item.name.as_str());
            let mut named = false;
            let mut members: Vec<String> = Vec::new();
            let mut i: usize = 0;
            proof {
                assert(members.deep_view() =~= kit_members(all, item.name@, 0));
            }
            while i < count
                invariant
                    0 <= i <= count,
                    count == self.items@.len(),
                    all == self.items.deep_view(),
                    named == kit_named(all, item.name@, i as int),
                    members.deep_view() == kit_members(all, item.name@, i as int),
                decreases count - i,
            {
                let ghost before = members.deep_view();
                assert(all[i as int] == self.items@[i as int].deep_view());
                if in_kit(&self.items[i], &item.name) {
                    named = true;
                    if self.items[i].name != item.name {
                        members.push(self.items[i].name.clone());
                        proof {
                            assert(members.deep_view() =~= before.push(all[i as int].name));
                        }
                    }
                }
                i = i + 1;
            }
            if named && first == j {
                item.is_kit = true;
                item.kit_items = members;
            }
            linked.push(item);
            j = j + 1;
        }
        self.items = linked;
        proof {
            assert(self.items.deep_view() =~= with_kits_linked(all));
        }
    }

    /// Sets, for every item, the number of the given checkouts that name
    /// it; nothing else changes.
    pub fn update_from_checkouts(&mut self, checkouts: &Vec<CheckoutLogEntry>)
        ensures
            final(self).items@.len() == old(self).items@.len(),
            forall|k: int|
                0 <= k < old(self).items@.len() ==> (#[trigger] final(self).items@[k]).deep_view() == (
                ItemModel {
                    checked_quantity: times_checked_out(
                        item_lists(checkouts@),
                        old(self).items@[k].name@,
                        checkouts@.len() as int,
                    ) as u64,
                    ..old(self).items@[k].deep_view()
                }),
            final(self).last_updated == old(self).last_updated,
            final(self).needs_restock@ == old(self).needs_restock@,
            final(self).sent_restock_notice == old(self).sent_restock_notice,
    {
        let ghost lists = item_lists(checkouts@);
        let mut k: usize = 0;
        while k < self.items.len()
            invariant
                0 <= k <= self.items@.len(),
                self.items@.len() == old(self).items@.len(),
                self.last_updated == old(self).last_updated,
                self.needs_restock@ == old(self).needs_restock@,
                self.sent_restock_notice == old(self).sent_restock_notice,
                lists == item_lists(checkouts@),
                forall|j: int|
                    0 <= j < k ==> (#[trigger] self.items@[j]).deep_view() == (ItemModel {
                        checked_quantity: times_checked_out(
                            lists,
                            old(self).items@[j].name@,
                            checkouts@.len() as int,
                        ) as u64,
                        ..old(self).items@[j].deep_view()
                    }),
                forall|j: int| k <= j < self.items@.len() ==> self.items@[j] == old(self).items@[j],
            decreases self.items@.len() - k,
        {
            let mut item = self.items[k].duplicate();
            let mut count: u64 = 0;
            let mut i: usize = 0;
            while i < checkouts.len()
                invariant
                    0 <= i <= checkouts@.len(),
                    lists == item_lists(checkouts@),
                    count == times_checked_out(lists, item.name@, i as int),
                    count <= i,
                decreases checkouts@.len() - i,
            {
                if holds_text(&checkouts[i].items, item.name.as_str()) {
                    count = count + 1;
                }
                i = i + 1;
            }
            item.checked_quantity = count;
            self.items[k] = item;
            k = k + 1;
        }
    }

    /// Files a request to restock.
    pub fn add_restock_notice(&mut self, notice: RestockNotice)
        ensures
            final(self).needs_restock@ == old(self).needs_restock@.push(notice),
            final(self).items@ == old(self).items@,
            final(self).last_updated == old(self).last_updated,
            final(self).sent_restock_notice == old(self).sent_restock_notice,
    {
        self.needs_restock.push(notice);
    }
}

} // verus!
