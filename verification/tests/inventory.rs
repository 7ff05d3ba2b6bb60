use prototurtle_rs::inventory::Inventory;
use prototurtle_rs::turtle::Turt;
use prototurtle_rs::turtle_core::control::{Action, TurtControl};
use prototurtle_rs::turtle_core::data::{Json, TurtResponse, TurtSlot};
use prototurtle_rs::turtle_core::inventory::{TurtInventory, TURT_SLOTS};

fn nothing() -> TurtResponse {
    TurtResponse::Value(Json::List(vec![]))
}

fn stack(name: &str, count: i64) -> TurtResponse {
    TurtResponse::Value(Json::List(vec![Json::Object(vec![
        ("count".to_string(), Json::Int(count)),
        ("name".to_string(), Json::Text(name.to_string())),
    ])]))
}

fn drive(inv: &mut TurtInventory, mut answer: impl FnMut(&str) -> TurtResponse) -> Vec<String> {
    let mut commands = vec![];
    let mut reply = None;
    loop {
        assert_eq!(reply.is_some(), inv.awaits_reply());
        match inv.step(reply.take()) {
            Action::Send(c) => {
                reply = Some(answer(&c));
                commands.push(c);
            }
            Action::Finished => return commands,
            _ => panic!("the mirror asks for nothing but slots"),
        }
    }
}

#[test]
fn empty_inventory_is_searched_once_around() {
    let mut inv = TurtInventory::init(TurtControl::new());
    inv.reduce_count_andor_find_next(5);
    let commands = drive(&mut inv, |_| nothing());
    let expected: Vec<String> =
        (0..16).map(|i| format!("turtle.getItemDetail({})", (5 + i) % 16 + 1)).collect();
    assert_eq!(commands, expected);
    assert_eq!(inv.found(), None);
    assert!(inv.is_idle());
}

#[test]
fn a_known_stack_costs_no_question() {
    let mut inv = TurtInventory::init(TurtControl::new());
    inv.slots[3] = Some(TurtSlot::new(2, "minecraft:stone".to_string()));
    inv.reduce_count_andor_find_next(3);
    assert!(drive(&mut inv, |_| panic!()).is_empty());
    assert_eq!(inv.found(), Some(1));
    assert_eq!(inv.found_at(), 3);
    inv.reduce_count_andor_find_next(3);
    assert!(drive(&mut inv, |_| panic!()).is_empty());
    assert_eq!(inv.found(), Some(0));
    assert_eq!(inv.slots[3].as_ref().unwrap().count(), 0);
}

#[test]
fn a_used_up_stack_is_cleared_and_asked_for_once() {
    let mut inv = TurtInventory::init(TurtControl::new());
    inv.slots[3] = Some(TurtSlot::new(0, "minecraft:stone".to_string()));
    inv.reduce_count_andor_find_next(3);
    let commands = drive(&mut inv, |c| {
        if c == "turtle.getItemDetail(4)" {
            nothing()
        } else if c == "turtle.getItemDetail(5)" {
            stack("minecraft:dirt", 8)
        } else {
            panic!()
        }
    });
    assert_eq!(commands, vec!["turtle.getItemDetail(4)", "turtle.getItemDetail(5)"]);
    assert!(inv.slots[3].is_none());
    assert_eq!(inv.found(), Some(7));
    assert_eq!(inv.found_at(), 4);
    assert_eq!(inv.slots[4].as_ref().unwrap().count(), 7);
    assert_eq!(inv.slots[4].as_ref().unwrap().name(), "minecraft:dirt");
}

#[test]
fn a_slot_that_is_still_empty_is_passed() {
    let mut inv = TurtInventory::init(TurtControl::new());
    inv.reduce_count_andor_find_next(15);
    let commands = drive(&mut inv, |c| {
        if c == "turtle.getItemDetail(1)" {
            stack("minecraft:sand", 1)
        } else {
            TurtResponse::BadCode("?".to_string())
        }
    });
    assert_eq!(commands, vec!["turtle.getItemDetail(16)", "turtle.getItemDetail(1)"]);
    assert_eq!(inv.found(), Some(0));
    assert_eq!(inv.found_at(), 0);
}

#[test]
fn a_stack_reported_as_empty_is_left_behind() {
    let mut inv = TurtInventory::init(TurtControl::new());
    inv.reduce_count_andor_find_next(0);
    let mut asked = 0;
    drive(&mut inv, |_| {
        asked += 1;
        stack("minecraft:air", 0)
    });
    assert_eq!(asked, 16);
    assert_eq!(inv.found(), None);
    assert!(inv.is_full());
}

#[test]
fn full_update_asks_for_every_slot() {
    let mut inv = TurtInventory::init(TurtControl::new());
    assert!(!inv.is_full());
    inv.full_update();
    let commands = drive(&mut inv, |c| if c == "turtle.getItemDetail(7)" { nothing() } else { stack("minecraft:stone", 64) });
    let expected: Vec<String> = (1..=16).map(|i| format!("turtle.getItemDetail({})", i)).collect();
    assert_eq!(commands, expected);
    assert_eq!(inv.slots.len(), TURT_SLOTS);
    assert!(inv.slots[6].is_none());
    assert_eq!(inv.slots[0].as_ref().unwrap().count(), 64);
    assert!(!inv.is_full());
    inv.full_update();
    drive(&mut inv, |_| stack("minecraft:stone", 64));
    assert!(inv.is_full());
}

#[test]
fn short_mirror() {
    let mut inv = Inventory::init(&Turt::new());
    assert!(!inv.is_full());
    inv.full_update();
    let mut reply = None;
    let mut asked = 0;
    loop {
        match inv.step(reply.take()) {
            Action::Send(_) => {
                asked += 1;
                reply = Some(stack("minecraft:stone", 1));
            }
            Action::Finished => break,
            _ => panic!(),
        }
    }
    assert_eq!(asked, 16);
    assert!(inv.is_full());
}
