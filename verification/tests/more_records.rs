use make::checkout::CheckoutLogEntry;
use make::inventory::{holds_text, read_kit, read_quantity, Inventory, InventoryItem, RestockNotice};
use make::permissions::{AccessRule, SwipeGroup};
use make::schedule::{Schedule, ScheduleDay, Shift};
use make::text::same_text;
use make::users::AuthLevel;
use make::workshops::{Workshop, Workshops};

fn line(cells: [&str; 12]) -> Vec<String> {
    cells.iter().map(|c| c.to_string()).collect()
}

fn item(name: &str, kit: &str) -> InventoryItem {
    InventoryItem::new_from_line(line([name, "T", "3", "", "", "", "", "", "", "", "", kit]))
}

#[test]
fn inventory_item_from_a_row() {
    let item = InventoryItem::new_from_line(line([
        "Drill", "T", "4", "Main", "Bench", "https://example.com", "Cordless", "SN1", "Maker",
        "M18", "u1,u2\nu3", "  Drill kit ",
    ]));
    assert_eq!(item.name, "Drill");
    assert!(item.is_tool);
    assert!(!item.is_material);
    assert_eq!(item.checked_quantity, 0);
    assert_eq!(item.quantity, 4);
    assert_eq!(item.location_room, "Main");
    assert_eq!(item.location_area, "Bench");
    assert_eq!(item.reorder_url, "https://example.com");
    assert_eq!(item.specific_name, "Cordless");
    assert_eq!(item.serial_number, "SN1");
    assert_eq!(item.brand, "Maker");
    assert_eq!(item.model_number, "M18");
    assert_eq!(item.uuids, vec!["u1".to_string(), "u2".to_string(), "u3".to_string()]);
    assert_eq!(item.kit, Some("Drill kit".to_string()));
    assert!(!item.is_kit);
    assert!(item.kit_items.is_empty());
    let copy = item.duplicate();
    assert_eq!(copy.uuids, item.uuids);
    assert_eq!(copy.kit, item.kit);
}

#[test]
fn inventory_quantities_and_kits() {
    assert_eq!(read_quantity("Low"), -1);
    assert_eq!(read_quantity("Medium"), -2);
    assert_eq!(read_quantity("High"), -3);
    assert_eq!(read_quantity("17"), 17);
    assert_eq!(read_quantity("-4"), -4);
    assert_eq!(read_quantity("low"), 0);
    assert_eq!(read_quantity(""), 0);
    assert_eq!(read_kit("   "), None);
    assert_eq!(read_kit(""), None);
    assert_eq!(read_kit(" a b "), Some("a b".to_string()));
    let material = InventoryItem::new_from_line(line(["Glue", "M", "High", "", "", "", "", "", "", "", "", ""]));
    assert!(material.is_material && !material.is_tool);
    assert_eq!(material.quantity, -3);
    assert_eq!(material.uuids, vec!["".to_string()]);
    assert_eq!(material.kit, None);
    assert!(same_text("a", "a"));
    assert!(!same_text("a", "b"));
    assert!(holds_text(&vec!["x".to_string(), "y".to_string()], "y"));
    assert!(!holds_text(&vec!["x".to_string()], "y"));
}

#[test]
fn inventory_items_by_name_and_identifier() {
    let mut inventory = Inventory::new();
    assert_eq!(inventory.last_updated, 0);
    assert!(!inventory.sent_restock_notice);
    inventory.update_item(InventoryItem::new_from_line(line(["Saw", "T", "1", "", "", "", "", "", "", "", "s1,s2", ""])));
    inventory.update_item(InventoryItem::new_from_line(line(["Drill", "T", "2", "", "", "", "", "", "", "", "d1", ""])));
    assert_eq!(inventory.items.len(), 2);
    inventory.update_item(InventoryItem::new_from_line(line(["Saw", "T", "9", "", "", "", "", "", "", "", "s3", ""])));
    assert_eq!(inventory.items.len(), 2);
    assert_eq!(inventory.get_item_by_name("Saw").unwrap().quantity, 9);
    assert!(inventory.get_item_by_name("Lathe").is_none());
    assert_eq!(inventory.get_item_by_uuid("d1").unwrap().name, "Drill");
    assert_eq!(inventory.get_item_by_uuid("s3").unwrap().name, "Saw");
    assert!(inventory.get_item_by_uuid("s1").is_none());
    inventory.add_restock_notice(RestockNotice { name: "Glue".to_string(), ..RestockNotice::default() });
    assert_eq!(inventory.needs_restock.len(), 1);
}

#[test]
fn inventory_counts_checkouts() {
    let mut inventory = Inventory::new();
    inventory.update_item(item("Saw", ""));
    inventory.update_item(item("Drill", ""));
    inventory.update_item(item("Lathe", ""));
    let checkouts = vec![
        CheckoutLogEntry::new_reservation(1, 0, 1, vec!["Saw".to_string(), "Drill".to_string()]),
        CheckoutLogEntry::new_reservation(2, 0, 1, vec!["Saw".to_string(), "Saw".to_string()]),
        CheckoutLogEntry::new_reservation(3, 0, 1, Vec::new()),
    ];
    inventory.update_from_checkouts(&checkouts);
    let counts: Vec<u64> = inventory.items.iter().map(|i| i.checked_quantity).collect();
    assert_eq!(counts, vec![2, 1, 0]);
    inventory.update_from_checkouts(&Vec::new());
    let counts: Vec<u64> = inventory.items.iter().map(|i| i.checked_quantity).collect();
    assert_eq!(counts, vec![0, 0, 0]);
}

#[test]
fn inventory_links_kits() {
    let mut inventory = Inventory::new();
    inventory.items.push(item("Bit", "Drill kit"));
    inventory.items.push(item("Drill kit", "Drill kit"));
    inventory.items.push(item("Charger", " Drill kit"));
    inventory.items.push(item("Saw", ""));
    inventory.items.push(item("Drill kit", ""));
    inventory.items.push(item("Blade", "Saw set"));
    inventory.link_kits();
    let kits: Vec<bool> = inventory.items.iter().map(|i| i.is_kit).collect();
    assert_eq!(kits, vec![false, true, false, false, false, false]);
    assert_eq!(inventory.items[1].kit_items, vec!["Bit".to_string(), "Charger".to_string()]);
    assert!(inventory.items[4].kit_items.is_empty());
    assert_eq!(inventory.items.len(), 6);
    assert_eq!(inventory.items[5].name, "Blade");
}

#[test]
fn schedule_hides_the_stewards() {
    let mut shift = Shift::new("10-12".to_string());
    assert_eq!(shift.num_stewards, 0);
    shift.stewards = vec!["Ann".to_string(), "Bob".to_string()];
    shift.num_stewards = 2;
    shift.proficiencies = vec!["Welding".to_string()];
    let mut monday = ScheduleDay::new("Monday".to_string());
    assert!(monday.shifts.is_empty());
    monday.add_shift(shift);
    monday.add_shift(Shift::new("12-14".to_string()));
    let mut schedule = Schedule { days: vec![monday, ScheduleDay::new("Tuesday".to_string())], all_proficiencies: vec!["Welding".to_string()] };
    schedule.censor_names();
    assert_eq!(schedule.days.len(), 2);
    assert_eq!(schedule.days[0].day, "Monday");
    assert_eq!(schedule.days[0].shifts[0].stewards, vec!["Steward".to_string(), "Steward".to_string()]);
    assert_eq!(schedule.days[0].shifts[0].num_stewards, 2);
    assert_eq!(schedule.days[0].shifts[0].time_string, "10-12");
    assert_eq!(schedule.days[0].shifts[0].proficiencies, vec!["Welding".to_string()]);
    assert!(schedule.days[0].shifts[1].stewards.is_empty());
    assert_eq!(schedule.all_proficiencies, vec!["Welding".to_string()]);
}

#[test]
fn workshop_from_a_row() {
    let row: Vec<String> = ["May 1", "5 pm", "Kim", "Welding 101", "Learn to weld", "12"].iter().map(|c| c.to_string()).collect();
    let workshop = Workshop::new(&row);
    assert_eq!(workshop.title, "Welding 101");
    assert_eq!(workshop.date, "May 1");
    assert_eq!(workshop.time, "5 pm");
    assert_eq!(workshop.instructor, "Kim");
    assert_eq!(workshop.description, "Learn to weld");
    assert_eq!(workshop.slots_available, "12");
    assert!(Workshops::new().workshops.is_empty());
}

#[test]
fn access_rules_default_to_the_makerspace() {
    let rule = AccessRule::default();
    assert_eq!(rule.swipe_group, SwipeGroup::Makerspace);
    assert_eq!(rule.auth_level, AuthLevel::User);
    assert_eq!(rule.timestamp_start, 0);
}

fn rows(cells: &[&[&str]]) -> Vec<Vec<String>> {
    cells.iter().map(|row| row.iter().map(|c| c.to_string()).collect()).collect()
}

#[test]
fn workshops_from_rows_stop_at_the_first_empty_row() {
    let mut workshops = Workshops::new();
    workshops.set_from_rows(&rows(&[
        &["May 1", "5 pm", "Kim", "Welding 101", "Learn to weld", "12"],
        &["May 2", "6 pm", "Lee", "Sewing", "Learn to sew", "8", "more"],
        &["", "", "", "", "", ""],
        &["May 9", "6 pm", "Ann", "Late", "Not read", "1"],
    ]));
    let titles: Vec<&str> = workshops.workshops.iter().map(|w| w.title.as_str()).collect();
    assert_eq!(titles, vec!["Welding 101", "Sewing"]);
    assert_eq!(workshops.workshops[1].instructor, "Lee");
    workshops.set_from_rows(&rows(&[&[""]]));
    assert!(workshops.workshops.is_empty());
    workshops.set_from_rows(&Vec::new());
    assert!(workshops.workshops.is_empty());
}

#[test]
fn quiz_answers_from_rows() {
    let mut quiz = make::quizzes::Quiz::new("7", make::quizzes::QuizName::Studio);
    quiz.set_responses(
        &rows(&[
            &["t1", "10 / 10", "Ann", "41", "ann@example.edu"],
            &["t2", "9 / 10", "Bob", "42-1", "bob@example.edu"],
        ]),
        99,
    );
    assert_eq!(quiz.last_updated, 99);
    assert_eq!(quiz.id, "7");
    assert_eq!(quiz.responses.len(), 2);
    assert!(quiz.responses[0].passed);
    assert!(!quiz.responses[1].passed);
    assert_eq!(quiz.responses[1].college_id, 42);
    assert_eq!(quiz.responses[1].name, "Bob");
    quiz.set_responses(&Vec::new(), 100);
    assert!(quiz.responses.is_empty());
}

#[test]
fn inventory_items_from_rows() {
    let mut inventory = Inventory::new();
    inventory.set_items(
        &rows(&[
            &["Bit", "T", "3", "", "", "", "", "", "", "", "b1", "Drill kit"],
            &["Drill kit", "T", "Low", "", "", "", "", "", "", "", "k1", ""],
        ]),
        55,
    );
    assert_eq!(inventory.last_updated, 55);
    assert_eq!(inventory.items.len(), 2);
    assert!(inventory.items[1].is_kit);
    assert_eq!(inventory.items[1].kit_items, vec!["Bit".to_string()]);
    assert_eq!(inventory.items[1].quantity, -1);
    assert!(!inventory.items[0].is_kit);
}

#[test]
fn schedule_from_the_two_sheets() {
    let shifts = rows(&[
        &["10-12", "Ann, Bob", "", "Cy"],
        &["12-14", " ", "Dee"],
        &["", "Eve"],
        &["14-16", "Fay"],
    ]);
    let skills = rows(&[
        &["x", "header", "x", "x"],
        &["t", "Ann", "e", "Welding", "", "Laser"],
        &["t", "Cy", "e", "Laser", "Welding"],
        &["t", "Zed", "e", "Sewing"],
    ]);
    let mut schedule = Schedule { days: Vec::new(), all_proficiencies: vec!["Zeta".to_string()] };
    schedule.update_from_rows(Some(&shifts), Some(&skills));
    let names: Vec<&str> = schedule.days.iter().map(|d| d.day.as_str()).collect();
    assert_eq!(names, vec!["Monday", "Tuesday", "Wednesday", "Thursday", "Friday", "Saturday", "Sunday"]);
    assert_eq!(schedule.days[0].shifts.len(), 1);
    assert_eq!(schedule.days[0].shifts[0].time_string, "10-12");
    assert_eq!(schedule.days[0].shifts[0].stewards, vec!["Ann".to_string(), "Bob".to_string()]);
    assert_eq!(schedule.days[0].shifts[0].num_stewards, 2);
    assert_eq!(schedule.days[0].shifts[0].proficiencies, vec!["Welding".to_string(), "Laser".to_string()]);
    assert_eq!(schedule.days[1].shifts.len(), 1);
    assert_eq!(schedule.days[1].shifts[0].time_string, "12-14");
    assert_eq!(schedule.days[1].shifts[0].stewards, vec!["Dee".to_string()]);
    assert!(schedule.days[1].shifts[0].proficiencies.is_empty());
    assert_eq!(schedule.days[2].shifts[0].stewards, vec!["Cy".to_string()]);
    assert_eq!(schedule.days[2].shifts[0].proficiencies, vec!["Laser".to_string(), "Welding".to_string()]);
    assert!(schedule.days[3].shifts.is_empty());
    assert_eq!(
        schedule.all_proficiencies,
        vec!["Laser".to_string(), "Sewing".to_string(), "Welding".to_string(), "Zeta".to_string()]
    );
}

#[test]
fn schedule_keeps_its_days_without_both_sheets() {
    let shifts = rows(&[&["10-12", "Ann"]]);
    let mut schedule = Schedule {
        days: vec![ScheduleDay::new("Someday".to_string())],
        all_proficiencies: vec!["b".to_string(), "".to_string(), "a".to_string(), "b".to_string()],
    };
    schedule.update_from_rows(Some(&shifts), None);
    assert_eq!(schedule.days.len(), 1);
    assert_eq!(schedule.days[0].day, "Someday");
    assert_eq!(schedule.all_proficiencies, vec!["a".to_string(), "b".to_string()]);
    schedule.update_from_rows(None, Some(&shifts));
    assert_eq!(schedule.days.len(), 1);
    schedule.update_from_rows(None, None);
    assert_eq!(schedule.all_proficiencies, vec!["a".to_string(), "b".to_string()]);
}

#[test]
fn schedule_pieces() {
    let shift = Shift::staffed("9-10", " Ann ,Bob,, Cy");
    assert_eq!(shift.stewards, vec!["Ann".to_string(), "Bob".to_string(), "".to_string(), "Cy".to_string()]);
    assert_eq!(shift.num_stewards, 4);
    assert_eq!(shift.time_string, "9-10");
    let mut learned = shift.duplicate();
    learned.learn("Bob", &vec!["Laser".to_string(), "".to_string(), "Laser".to_string(), "Saw".to_string()]);
    assert_eq!(learned.proficiencies, vec!["Laser".to_string(), "Saw".to_string()]);
    learned.learn("Nobody", &vec!["Glue".to_string()]);
    assert_eq!(learned.proficiencies, vec!["Laser".to_string(), "Saw".to_string()]);
    assert_eq!(make::schedule::new_week().len(), 7);
    assert_eq!(
        make::schedule::list_texts(&vec!["b".to_string(), "a".to_string(), "".to_string(), "b".to_string()]),
        vec!["a".to_string(), "b".to_string()]
    );
    assert_eq!(
        make::schedule::row_skills(&vec!["a".to_string(), "b".to_string(), "c".to_string(), "d".to_string(), "e".to_string()]),
        vec!["d".to_string(), "e".to_string()]
    );
    assert!(make::schedule::row_skills(&vec!["a".to_string()]).is_empty());
    let week = make::schedule::week_from_rows(&rows(&[&["8-9", "", "", "", "", "", "", "Sun"]]));
    assert_eq!(week[6].shifts[0].stewards, vec!["Sun".to_string()]);
    assert!(week[0].shifts.is_empty());
}
