use prototurtle_rs::cmd::{LuaResp, Resp};
use prototurtle_rs::entry::id_to_i;
use prototurtle_rs::nav::Nav;
use prototurtle_rs::server::{BotNet, Rendezvous, TURTLE_CAPACITY};
use prototurtle_rs::turtle::Turt;
use prototurtle_rs::turtle_core::control::Action;
use prototurtle_rs::turtle_core::data::{Json, TurtResponse};
use prototurtle_rs::turtle_core::heading::Head;
use prototurtle_rs::turtle_core::navigation::{steps_aside, TurtNavigation};
use prototurtle_rs::turtle_core::control::TurtControl;
use prototurtle_rs::turtle_core::navigation::FStoreNav;
use prototurtle_rs::turtle_core::position::{Pos, PosH};
use prototurtle_rs::coords::{Axis, Order};

fn text_of(r: Option<TurtResponse>) -> Option<String> {
    match r {
        Some(TurtResponse::BadReq(t)) => Some(t),
        Some(_) => Some("?".to_string()),
        None => None,
    }
}

#[test]
fn a_turtle_without_a_command_waits() {
    let mut r = Rendezvous::new();
    assert_eq!(r.next(), "WAIT");
    assert_eq!(r.next(), "WAIT");
    assert!(r.recv().is_none());
}

#[test]
fn commands_and_responses_keep_their_order() {
    let mut r = Rendezvous::new();
    r.send("turtle.forward()".to_string());
    r.send("turtle.up()".to_string());
    r.cmdcomplete(TurtResponse::BadReq("a".to_string()));
    r.cmdcomplete(TurtResponse::BadReq("b".to_string()));
    assert_eq!(r.next(), "turtle.forward()");
    assert_eq!(text_of(r.recv()), Some("a".to_string()));
    assert_eq!(r.next(), "turtle.up()");
    assert_eq!(r.next(), "WAIT");
    assert_eq!(text_of(r.recv()), Some("b".to_string()));
    assert_eq!(text_of(r.recv()), None);
    r.disconnect();
    assert_eq!(r.next(), "EXIT");
}

#[test]
fn registry_keeps_turtles_apart() {
    let mut net = BotNet::new();
    assert!(net.knows(TURTLE_CAPACITY - 1));
    assert!(!net.knows(TURTLE_CAPACITY));
    net.send(3, "turtle.dig()".to_string());
    net.send(4, "turtle.digUp()".to_string());
    assert_eq!(net.next(4), "turtle.digUp()");
    assert_eq!(net.next(4), "WAIT");
    assert_eq!(net.next(3), "turtle.dig()");
    assert!(net.cmdcomplete(3, TurtResponse::BadReq("three".to_string())));
    assert!(net.recv(4).is_none());
    assert_eq!(text_of(net.recv(3)), Some("three".to_string()));
}

#[test]
fn a_turtle_that_is_not_registered_waits() {
    let mut net = BotNet::new();
    assert_eq!(net.next(1000), "WAIT");
    assert!(!net.cmdcomplete(1000, TurtResponse::BadReq("lost".to_string())));
    net.register_turtle(1000);
    assert!(net.knows(1000));
    assert!(net.knows(999));
    assert!(!net.knows(1001));
    assert!(net.cmdcomplete(1000, TurtResponse::BadReq("found".to_string())));
    assert_eq!(text_of(net.recv(1000)), Some("found".to_string()));
}

#[test]
fn registering_again_begins_anew() {
    let mut net = BotNet::new();
    net.send(7, "turtle.up()".to_string());
    net.cmdcomplete(7, TurtResponse::BadReq("old".to_string()));
    net.send(8, "turtle.down()".to_string());
    net.register_turtle(7);
    assert_eq!(net.next(7), "WAIT");
    assert!(net.recv(7).is_none());
    assert_eq!(net.next(8), "turtle.down()");
    assert!(net.knows(TURTLE_CAPACITY - 1));
    assert!(!net.knows(TURTLE_CAPACITY));
}

#[test]
fn place_in_the_fleet() {
    let active = [4, 9, 10, 11, 12, 19, 20, 21];
    assert_eq!(id_to_i(&active, 4), Some(0));
    assert_eq!(id_to_i(&active, 12), Some(4));
    assert_eq!(id_to_i(&active, 21), Some(7));
    assert_eq!(id_to_i(&active, 5), None);
    assert_eq!(id_to_i(&[], 5), None);
    assert_eq!(id_to_i(&[3, 3], 3), Some(0));
}

#[test]
fn first_names_of_the_responses() {
    let raw = LuaResp { code: 0, out: Json::Null, text: "null".to_string() };
    let resp: Resp = raw.into_response().unwrap();
    assert!(matches!(resp, TurtResponse::Value(Json::Null)));
}

#[test]
fn orders_of_the_axes() {
    assert_eq!(Order::XYZ.order_arr(), (Axis::X, Axis::Y, Axis::Z));
    assert_eq!(Order::YXZ.order_arr(), (Axis::Y, Axis::X, Axis::Z));
    assert_eq!(Order::XZY.order_arr(), (Axis::X, Axis::Z, Axis::Y));
    assert_eq!(Order::YZX.order_arr(), (Axis::Y, Axis::Z, Axis::X));
    assert_eq!(Order::ZXY.order_arr(), (Axis::Z, Axis::X, Axis::Y));
    assert_eq!(Order::ZYX.order_arr(), (Axis::Z, Axis::Y, Axis::X));
    assert_eq!(Order::ZYX.axis(0), Axis::Z);
    assert_eq!(Order::ZYX.axis(1), Axis::Y);
    assert_eq!(Order::ZYX.axis(2), Axis::X);
}

#[test]
fn positions() {
    assert_eq!(Pos::new(1, -2, 3), Pos { x: 1, y: -2, z: 3 });
    assert_eq!(Pos::orig(), Pos::new(0, 0, 0));
    assert_eq!(Pos::new(1, 2, 3).into_posh(), PosH { x: 1, y: 2, z: 3, h: Head::N });
    assert_eq!(PosH { x: 1, y: 2, z: 3, h: Head::W }.pos(), Pos::new(1, 2, 3));
    assert_eq!(Pos::new(1, -2, 30).to_string(), "(1, -2, 30)");
    assert_eq!(PosH { x: -2320, y: 60, z: -1072, h: Head::N }.to_string(), "(-2320, 60, -1072)[n]");
    assert_eq!(
        PosH { x: i64::MIN, y: i64::MAX, z: 0, h: Head::W }.to_string(),
        "(-9223372036854775808, 9223372036854775807, 0)[w]"
    );
}

fn drive(nav: &mut Nav, answers: Vec<TurtResponse>) -> Vec<String> {
    let mut answers = answers.into_iter();
    let mut commands = vec![];
    let mut reply = None;
    loop {
        assert_eq!(reply.is_some(), nav.awaits_reply());
        match nav.step_with(reply.take(), false) {
            Action::Send(c) => {
                commands.push(c);
                reply = Some(answers.next().unwrap());
            }
            Action::Finished => return commands,
            Action::Failed(_) => panic!(),
            _ => {}
        }
    }
}

#[test]
fn short_navigation() {
    let yes = || TurtResponse::Value(Json::List(vec![Json::Bool(true)]));
    let free = || TurtResponse::Value(Json::List(vec![Json::Bool(false), Json::Null]));
    let mut nav = Nav::new(false, &Turt::new(), PosH { x: 0, y: 0, z: 0, h: Head::N });
    nav.t_head(Head::S);
    assert_eq!(drive(&mut nav, vec![yes(), yes()]), vec!["turtle.turnRight()", "turtle.turnRight()"]);
    nav.t_left();
    assert_eq!(drive(&mut nav, vec![yes()]), vec!["turtle.turnLeft()"]);
    nav.t_right();
    assert_eq!(drive(&mut nav, vec![yes()]), vec!["turtle.turnRight()"]);
    assert_eq!(nav.pos().h, Head::S);
    nav.m_forw();
    assert_eq!(drive(&mut nav, vec![free(), yes()]), vec!["turtle.inspect()", "turtle.forward()"]);
    nav.m_back();
    assert_eq!(drive(&mut nav, vec![yes()]), vec!["turtle.back()"]);
    nav.m_up();
    assert_eq!(drive(&mut nav, vec![free(), yes()]), vec!["turtle.inspectUp()", "turtle.up()"]);
    nav.m_down();
    assert_eq!(drive(&mut nav, vec![free(), yes()]), vec!["turtle.inspectDown()", "turtle.down()"]);
    assert_eq!(*nav.pos(), PosH { x: 0, y: 0, z: 0, h: Head::S });
    nav.goto_nohead(&Pos::new(0, 1, 0), Order::XYZ);
    drive(&mut nav, vec![free(), yes()]);
    nav.goto_head(&PosH { x: 0, y: 0, z: 0, h: Head::W }, Order::XYZ);
    drive(&mut nav, vec![free(), yes(), yes()]);
    assert_eq!(*nav.pos(), PosH { x: 0, y: 0, z: 0, h: Head::W });
    nav.gps_init();
    let fix = |x| TurtResponse::Value(Json::List(vec![Json::Int(x), Json::Int(0), Json::Int(0)]));
    drive(&mut nav, vec![fix(5), free(), yes(), fix(4)]);
    assert_eq!(*nav.pos(), PosH { x: 4, y: 0, z: 0, h: Head::W });
}

#[test]
fn the_coin_has_two_sides() {
    let careless = TurtNavigation::new(TurtControl::new(), false, FStoreNav { p: PosH::default() });
    let careful = TurtNavigation::new(TurtControl::new(), true, FStoreNav { p: PosH::default() });
    let mut aside = 0;
    for _ in 0..400 {
        assert!(!careless.dodges());
        if careful.dodges() {
            aside += 1;
        }
    }
    assert!(aside > 0 && aside < 400);
}

#[test]
fn short_navigation_keeps_and_takes_its_position() {
    let mut nav = Nav::new(false, &Turt::new(), PosH { x: 1, y: 2, z: 3, h: Head::E });
    assert_eq!(nav.spos(), b"1\n2\n3\ne\n".to_vec());
    assert!(nav.lpos(b"-4\n5\n6\nw\n"));
    assert_eq!(*nav.pos(), PosH { x: -4, y: 5, z: 6, h: Head::W });
    assert!(!nav.lpos(b"-4\n5\n"));
    assert_eq!(*nav.pos(), PosH { x: -4, y: 5, z: 6, h: Head::W });
    let mut nav = TurtNavigation::new(TurtControl::new(), false, FStoreNav { p: PosH::default() });
    assert_eq!(nav.pos_save(), b"0\n0\n0\nn\n".to_vec());
    nav.set_pos(PosH { x: 9, y: 8, z: 7, h: Head::S });
    assert_eq!(nav.pos_save(), b"9\n8\n7\ns\n".to_vec());
    assert!(nav.is_idle());
}

#[test]
fn a_turtle_steps_aside_on_one_side_of_the_coin() {
    assert!(steps_aside(true, 0));
    assert!(!steps_aside(true, 1));
    assert!(!steps_aside(false, 0));
    assert!(!steps_aside(false, 1));
}
