use prototurtle_rs::coords::Order;
use prototurtle_rs::turtle_core::control::{Action, StateFile, TurtControl};
use prototurtle_rs::turtle_core::data::{Json, TurtResponse};
use prototurtle_rs::turtle_core::file_system_storage::FStore;
use prototurtle_rs::turtle_core::heading::Head;
use prototurtle_rs::turtle_core::navigation::{read_nav, write_nav, FStoreNav, TurtNavigation};
use prototurtle_rs::turtle_core::position::{Pos, PosH};

fn yes() -> TurtResponse {
    TurtResponse::Value(Json::List(vec![Json::Bool(true)]))
}

fn no() -> TurtResponse {
    TurtResponse::Value(Json::List(vec![Json::Bool(false), Json::Text("Movement obstructed".to_string())]))
}

fn free() -> TurtResponse {
    TurtResponse::Value(Json::List(vec![Json::Bool(false), Json::Null]))
}

fn block(name: &str) -> TurtResponse {
    TurtResponse::Value(Json::List(vec![
        Json::Bool(true),
        Json::Object(vec![("name".to_string(), Json::Text(name.to_string()))]),
    ]))
}

fn fix(x: i64, y: i64, z: i64) -> TurtResponse {
    TurtResponse::Value(Json::List(vec![Json::Int(x), Json::Int(y), Json::Int(z)]))
}

fn nav_at(x: i64, y: i64, z: i64, h: Head, avoid: bool) -> TurtNavigation {
    TurtNavigation::new(TurtControl::new(), avoid, FStoreNav { p: PosH { x, y, z, h } })
}

struct Trace {
    commands: Vec<String>,
    saves: Vec<Vec<u8>>,
    failed: bool,
}

fn drive(nav: &mut TurtNavigation, replies: Vec<TurtResponse>, dodge: bool) -> Trace {
    let mut replies = replies.into_iter();
    let mut trace = Trace { commands: vec![], saves: vec![], failed: false };
    let mut reply: Option<TurtResponse> = None;
    for _ in 0..10_000 {
        assert_eq!(reply.is_some(), nav.awaits_reply());
        match nav.step_with(reply.take(), dodge) {
            Action::Send(c) => {
                trace.commands.push(c);
                reply = Some(replies.next().expect("the turtle has no more answers"));
            }
            Action::Save(file, text) => {
                assert_eq!(file, StateFile::Nav);
                trace.saves.push(text);
            }
            Action::Continue => {}
            Action::Sleep(_) => panic!("navigation never sleeps"),
            Action::Finished => {
                assert!(replies.next().is_none());
                return trace;
            }
            Action::Failed(_) => {
                trace.failed = true;
                return trace;
            }
        }
    }
    panic!("the journey does not end");
}

#[test]
fn gps_bootstrap_facing_east() {
    let mut nav = nav_at(0, 0, 0, Head::N, false);
    nav.gps_init();
    let trace = drive(&mut nav, vec![fix(10, 64, 5), free(), yes(), fix(11, 64, 5)], false);
    assert_eq!(
        trace.commands,
        vec!["gps.locate()", "turtle.inspect()", "turtle.forward()", "gps.locate()"]
    );
    assert_eq!(*nav.pos(), PosH { x: 11, y: 64, z: 5, h: Head::E });
    assert!(!trace.failed);
}

#[test]
fn gps_bootstrap_headings() {
    for (second, h) in [((10, 64, 4), Head::N), ((10, 64, 6), Head::S), ((9, 64, 5), Head::W), ((10, 64, 5), Head::E)] {
        let mut nav = nav_at(0, 0, 0, Head::N, false);
        nav.gps_init();
        drive(&mut nav, vec![fix(10, 64, 5), free(), yes(), fix(second.0, second.1, second.2)], false);
        assert_eq!(*nav.pos(), PosH { x: second.0, y: second.1, z: second.2, h });
    }
}

#[test]
fn gps_missing_is_fatal() {
    let mut nav = nav_at(0, 0, 0, Head::N, false);
    nav.gps_init();
    let trace = drive(&mut nav, vec![TurtResponse::BadCode("no gps".to_string())], false);
    assert!(trace.failed);
    assert!(nav.is_idle());
}

#[test]
fn turn_head_east_to_west() {
    let mut nav = nav_at(0, 0, 0, Head::E, false);
    nav.turn_head(Head::W);
    let trace = drive(&mut nav, vec![yes(), yes()], false);
    assert_eq!(trace.commands, vec!["turtle.turnRight()", "turtle.turnRight()"]);
    assert_eq!(nav.pos().h, Head::W);
    assert_eq!(trace.saves.last().unwrap(), &b"0\n0\n0\nw\n".to_vec());
}

#[test]
fn turn_head_reaches_every_heading() {
    let all = [Head::N, Head::E, Head::S, Head::W];
    for from in all {
        for to in all {
            let mut nav = nav_at(3, 4, 5, from, true);
            nav.turn_head(to);
            let turns = from.diff(&to).unsigned_abs() as usize;
            let trace = drive(&mut nav, (0..turns).map(|_| yes()).collect(), false);
            assert_eq!(trace.commands.len(), turns);
            assert_eq!(*nav.pos(), PosH { x: 3, y: 4, z: 5, h: to });
            assert_eq!(read_nav(trace.saves.last().unwrap()), Some(*nav.pos()));
        }
    }
}

#[test]
fn turn_left_is_one_command() {
    let mut nav = nav_at(0, 0, 0, Head::N, false);
    nav.turn_left();
    let trace = drive(&mut nav, vec![no()], false);
    assert_eq!(trace.commands, vec!["turtle.turnLeft()"]);
    assert_eq!(nav.pos().h, Head::W);
    assert_eq!(trace.saves, vec![b"0\n0\n0\nw\n".to_vec()]);
}

#[test]
fn goto_nohead_xyz() {
    let mut nav = nav_at(0, 0, 0, Head::N, false);
    nav.goto_nohead(&Pos::new(2, 0, -1), Order::XYZ);
    let trace = drive(
        &mut nav,
        vec![yes(), free(), yes(), free(), yes(), yes(), free(), yes()],
        false,
    );
    assert_eq!(
        trace.commands,
        vec![
            "turtle.turnRight()",
            "turtle.inspect()",
            "turtle.forward()",
            "turtle.inspect()",
            "turtle.forward()",
            "turtle.turnLeft()",
            "turtle.inspect()",
            "turtle.forward()",
        ]
    );
    assert_eq!(*nav.pos(), PosH { x: 2, y: 0, z: -1, h: Head::N });
}

#[test]
fn goto_head_turns_at_the_end() {
    let mut nav = nav_at(0, 0, 0, Head::N, false);
    nav.goto_head(&PosH { x: 0, y: 2, z: 0, h: Head::S }, Order::ZYX);
    let trace = drive(&mut nav, vec![free(), yes(), free(), yes(), yes(), yes()], false);
    assert_eq!(
        trace.commands,
        vec![
            "turtle.inspectUp()",
            "turtle.up()",
            "turtle.inspectUp()",
            "turtle.up()",
            "turtle.turnRight()",
            "turtle.turnRight()",
        ]
    );
    assert_eq!(*nav.pos(), PosH { x: 0, y: 2, z: 0, h: Head::S });
}

#[test]
fn a_block_in_the_way_is_dug() {
    let mut nav = nav_at(0, 0, 0, Head::S, false);
    nav.mv_forw();
    let trace = drive(&mut nav, vec![block("minecraft:stone"), yes(), yes()], false);
    assert_eq!(trace.commands, vec!["turtle.inspect()", "turtle.dig()", "turtle.forward()"]);
    assert_eq!(*nav.pos(), PosH { x: 0, y: 0, z: 1, h: Head::S });
    assert_eq!(trace.saves, vec![b"0\n0\n1\ns\n".to_vec()]);
}

#[test]
fn a_failed_move_is_tried_again() {
    let mut nav = nav_at(0, 0, 0, Head::W, false);
    nav.mv_forw();
    let trace = drive(
        &mut nav,
        vec![free(), no(), TurtResponse::BadReq("?".to_string()), free(), TurtResponse::BadCode("!".to_string()), free(), yes()],
        false,
    );
    assert_eq!(
        trace.commands,
        vec![
            "turtle.inspect()",
            "turtle.forward()",
            "turtle.inspect()",
            "turtle.inspect()",
            "turtle.forward()",
            "turtle.inspect()",
            "turtle.forward()",
        ]
    );
    assert_eq!(*nav.pos(), PosH { x: -1, y: 0, z: 0, h: Head::W });
    assert_eq!(trace.saves.len(), 1);
}

#[test]
fn a_turtle_in_the_way_is_dodged() {
    let mut nav = nav_at(0, 0, 0, Head::E, true);
    nav.mv_forw();
    let trace = drive(
        &mut nav,
        vec![block("computercraft:turtle_normal"), free(), yes(), free(), yes(), free(), yes(), yes()],
        true,
    );
    assert_eq!(
        trace.commands,
        vec![
            "turtle.inspect()",
            "turtle.inspectUp()",
            "turtle.up()",
            "turtle.inspect()",
            "turtle.forward()",
            "turtle.inspectDown()",
            "turtle.down()",
            "turtle.forward()",
        ]
    );
    assert_eq!(*nav.pos(), PosH { x: 2, y: 0, z: 0, h: Head::E });
}

#[test]
fn a_turtle_in_the_way_is_waited_out() {
    let mut nav = nav_at(0, 0, 0, Head::E, true);
    nav.mv_forw();
    let trace = drive(&mut nav, vec![block("computercraft:turtle_normal"), no(), free(), yes()], false);
    assert_eq!(
        trace.commands,
        vec!["turtle.inspect()", "turtle.forward()", "turtle.inspect()", "turtle.forward()"]
    );
    assert_eq!(*nav.pos(), PosH { x: 1, y: 0, z: 0, h: Head::E });
}

#[test]
fn a_turtle_in_the_way_is_dug_when_not_avoiding() {
    let mut nav = nav_at(0, 0, 0, Head::E, false);
    nav.mv_up();
    let trace = drive(&mut nav, vec![block("computercraft:turtle_normal"), no(), yes()], false);
    assert_eq!(trace.commands, vec!["turtle.inspectUp()", "turtle.digUp()", "turtle.up()"]);
    assert_eq!(*nav.pos(), PosH { x: 0, y: 1, z: 0, h: Head::E });
}

#[test]
fn goto_arrives_after_a_dodge() {
    let mut nav = nav_at(0, 0, 0, Head::E, true);
    nav.goto_nohead(&Pos::new(2, 0, 0), Order::XYZ);
    // The dodge adds a block forwards, so the sweep overshoots and the turtle comes back.
    let trace = drive(
        &mut nav,
        vec![
            block("computercraft:turtle_normal"),
            free(), yes(), free(), yes(), free(), yes(),
            yes(),
            free(), yes(),
            yes(), yes(),
            free(), yes(),
        ],
        true,
    );
    assert_eq!(nav.pos().x, 2);
    assert_eq!(nav.pos().y, 0);
    assert_eq!(nav.pos().z, 0);
    assert_eq!(trace.commands[10], "turtle.turnRight()");
    assert_eq!(trace.commands[11], "turtle.turnRight()");
}

#[test]
fn mv_back_is_tried_once() {
    let mut nav = nav_at(5, 5, 5, Head::N, false);
    nav.mv_back();
    let trace = drive(&mut nav, vec![no()], false);
    assert_eq!(trace.commands, vec!["turtle.back()"]);
    assert_eq!(*nav.pos(), PosH { x: 5, y: 5, z: 5, h: Head::N });
    assert!(trace.saves.is_empty());

    nav.mv_back();
    let trace = drive(&mut nav, vec![yes()], false);
    assert_eq!(*nav.pos(), PosH { x: 5, y: 5, z: 6, h: Head::N });
    assert_eq!(trace.saves, vec![b"5\n5\n6\nn\n".to_vec()]);
}

#[test]
fn every_move_is_one_block() {
    let cases = [
        (Head::N, (0, 0, -1)),
        (Head::E, (1, 0, 0)),
        (Head::S, (0, 0, 1)),
        (Head::W, (-1, 0, 0)),
    ];
    for (h, d) in cases {
        let mut nav = nav_at(7, 8, 9, h, false);
        nav.mv_forw();
        drive(&mut nav, vec![free(), yes()], false);
        assert_eq!(*nav.pos(), PosH { x: 7 + d.0, y: 8 + d.1, z: 9 + d.2, h });
        nav.mv_up();
        drive(&mut nav, vec![free(), yes()], false);
        assert_eq!(*nav.pos(), PosH { x: 7 + d.0, y: 9, z: 9 + d.2, h });
        nav.mv_down();
        drive(&mut nav, vec![free(), yes()], false);
        nav.mv_down();
        drive(&mut nav, vec![free(), yes()], false);
        assert_eq!(*nav.pos(), PosH { x: 7 + d.0, y: 7, z: 9 + d.2, h });
    }
}

#[test]
fn goto_reaches_the_place_in_every_order() {
    let orders = [Order::XYZ, Order::YXZ, Order::XZY, Order::YZX, Order::ZXY, Order::ZYX];
    let places = [(3, -2, 1), (-1, 4, -3), (0, 0, 0), (2, 0, 0)];
    for order in orders {
        for place in places {
            let mut nav = nav_at(1, 1, 1, Head::S, false);
            nav.goto_nohead(&Pos::new(place.0, place.1, place.2), order);
            let answers: Vec<TurtResponse> = (0..64).map(|i| if i % 2 == 0 { free() } else { yes() }).collect();
            let mut answers = answers.into_iter();
            let mut reply = None;
            loop {
                match nav.step_with(reply.take(), false) {
                    Action::Send(c) => {
                        reply = Some(if c.starts_with("turtle.turn") { yes() } else { answers.next().unwrap() });
                    }
                    Action::Finished => break,
                    Action::Failed(_) => panic!(),
                    _ => {}
                }
            }
            assert_eq!(nav.pos().pos(), Pos::new(place.0, place.1, place.2));
        }
    }
}

#[test]
fn nav_state_round_trip() {
    for p in [
        PosH { x: 0, y: 0, z: 0, h: Head::N },
        PosH { x: -2320, y: 60, z: -1072, h: Head::W },
        PosH { x: i64::MAX, y: i64::MIN, z: 7, h: Head::S },
        PosH { x: 10, y: -1, z: 100, h: Head::E },
    ] {
        let text = write_nav(&p);
        assert_eq!(read_nav(&text), Some(p));
        let store = FStoreNav { p };
        assert_eq!(FStoreNav::load(&store.save()), Some(store));
    }
    assert_eq!(write_nav(&PosH { x: -5, y: 64, z: 12, h: Head::E }), b"-5\n64\n12\ne\n".to_vec());
}

#[test]
fn nav_state_is_read_line_by_line() {
    assert_eq!(read_nav(b"1\r\n2\r\n3\r\ns\r\n"), Some(PosH { x: 1, y: 2, z: 3, h: Head::S }));
    assert_eq!(read_nav(b"1\n2\n3\ns"), Some(PosH { x: 1, y: 2, z: 3, h: Head::S }));
    assert_eq!(read_nav(b"1\n2\n3\n"), None);
    assert_eq!(read_nav(b"1\n2\nx\nn\n"), None);
    assert_eq!(read_nav(b"1\n2\n3\nq\n"), None);
    assert_eq!(read_nav(b"9223372036854775808\n2\n3\nn\n"), None);
    assert_eq!(read_nav(b"-9223372036854775808\n2\n3\nn\n"), Some(PosH { x: i64::MIN, y: 2, z: 3, h: Head::N }));
    assert_eq!(read_nav(b""), None);
}

#[test]
fn default_nav_state_is_the_origin() {
    assert_eq!(<FStoreNav as FStore>::default().p, PosH { x: 0, y: 0, z: 0, h: Head::N });
    assert_eq!(PosH::default(), PosH { x: 0, y: 0, z: 0, h: Head::N });
}
