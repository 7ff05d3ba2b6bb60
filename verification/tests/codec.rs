use prototurtle_rs::turtle_core::control::TurtControl;
use prototurtle_rs::turtle_core::data::{
    located_from_json, DecodeFault, InvalidCode, Json, TurtError, TurtInspect, TurtMovement, TurtRawResponse,
    TurtResponse, TurtSlot,
};
use prototurtle_rs::turtle_core::heading::Head;
use prototurtle_rs::turtle::{Inspect, Movement, Turt};

fn list(v: Vec<Json>) -> Json {
    Json::List(v)
}

fn named(name: &str) -> Json {
    Json::Object(vec![("name".to_string(), Json::Text(name.to_string()))])
}

#[test]
fn movement_is_one_or_two_elements() {
    let m = TurtMovement::from_json(&list(vec![Json::Bool(true)])).unwrap();
    assert!(m.success());
    assert_eq!(*m.msg(), None);
    let m = TurtMovement::from_json(&list(vec![Json::Bool(false), Json::Text("Out of fuel".to_string())])).unwrap();
    assert!(!m.success());
    assert_eq!(*m.msg(), Some("Out of fuel".to_string()));
    assert_eq!(TurtMovement::from_json(&Json::Null).unwrap_err(), DecodeFault::NotAnArray);
    assert_eq!(TurtMovement::from_json(&list(vec![])).unwrap_err(), DecodeFault::InvalidResponse);
    assert_eq!(
        TurtMovement::from_json(&list(vec![Json::Bool(true), Json::Null, Json::Null])).unwrap_err(),
        DecodeFault::InvalidResponse
    );
    assert_eq!(TurtMovement::from_json(&list(vec![Json::Int(1)])).unwrap_err(), DecodeFault::NotABool);
    assert_eq!(
        TurtMovement::from_json(&list(vec![Json::Bool(true), Json::Int(3)])).unwrap_err(),
        DecodeFault::NoMsg
    );
}

#[test]
fn inspect_names_the_block() {
    let i = TurtInspect::from_json(&list(vec![Json::Bool(true), named("minecraft:dirt")])).unwrap();
    assert_eq!(*i.block(), Some("minecraft:dirt".to_string()));
    let i = TurtInspect::from_json(&list(vec![Json::Bool(false), Json::Text("No block to inspect".to_string())])).unwrap();
    assert_eq!(*i.block(), None);
    assert_eq!(TurtInspect::from_json(&list(vec![Json::Bool(true)])).unwrap_err(), DecodeFault::InvalidResponse);
    assert_eq!(
        TurtInspect::from_json(&list(vec![Json::Real, Json::Null])).unwrap_err(),
        DecodeFault::NotABool
    );
    assert_eq!(
        TurtInspect::from_json(&list(vec![Json::Bool(true), Json::Object(vec![])])).unwrap_err(),
        DecodeFault::NoName
    );
    assert_eq!(TurtInspect::from_json(&Json::Bool(true)).unwrap_err(), DecodeFault::NotAnArray);
}

#[test]
fn slot_detail_has_count_and_name() {
    let detail = list(vec![Json::Object(vec![
        ("name".to_string(), Json::Text("minecraft:cobblestone".to_string())),
        ("count".to_string(), Json::Int(37)),
    ])]);
    let s = TurtSlot::from_json(&detail).unwrap();
    assert_eq!(s.count(), 37);
    assert_eq!(s.name(), "minecraft:cobblestone");
    assert!(!s.is_empty());
    assert_eq!(TurtSlot::from_json(&list(vec![])).unwrap_err(), DecodeFault::NoItem);
    assert_eq!(TurtSlot::from_json(&Json::Null).unwrap_err(), DecodeFault::NotAnArray);
    assert_eq!(TurtSlot::from_json(&list(vec![Json::Null])).unwrap_err(), DecodeFault::NotAnObject);
    assert_eq!(TurtSlot::from_json(&list(vec![named("x")])).unwrap_err(), DecodeFault::NoCount);
    assert_eq!(
        TurtSlot::from_json(&list(vec![Json::Object(vec![("count".to_string(), Json::Int(1))])])).unwrap_err(),
        DecodeFault::NoName
    );
    assert_eq!(
        TurtSlot::from_json(&list(vec![Json::Object(vec![
            ("count".to_string(), Json::Int(1 << 40)),
            ("name".to_string(), Json::Text("x".to_string())),
        ])]))
        .unwrap_err(),
        DecodeFault::NoCount
    );
}

#[test]
fn slot_count_is_reduced() {
    let mut s = TurtSlot::new(2, "minecraft:sand".to_string());
    s.reduce_count(1);
    assert_eq!(s.count(), 1);
    s.reduce_count(1);
    assert_eq!(s.count(), 0);
    assert!(s.is_empty());
    assert_eq!(s.name(), "minecraft:sand");
}

#[test]
fn typed_values_survive_the_round_trip() {
    for m in [
        TurtMovement::new(true, None),
        TurtMovement::new(false, Some("Movement obstructed".to_string())),
    ] {
        let again = TurtMovement::from_json(&m.to_json()).unwrap();
        assert_eq!(again.success(), m.success());
        assert_eq!(again.msg(), m.msg());
        let once_more = TurtMovement::from_json(&again.to_json()).unwrap();
        assert_eq!(once_more.success(), m.success());
        assert_eq!(once_more.msg(), m.msg());
    }
    for i in [TurtInspect::new(None), TurtInspect::new(Some("minecraft:chest".to_string()))] {
        let again = TurtInspect::from_json(&i.to_json()).unwrap();
        assert_eq!(again.block(), i.block());
    }
    let s = TurtSlot::new(64, "minecraft:terracotta".to_string());
    let again = TurtSlot::from_json(&s.to_json()).unwrap();
    assert_eq!(again.count(), 64);
    assert_eq!(again.name(), "minecraft:terracotta");
}

#[test]
fn responses_are_sorted_by_code() {
    let raw = |code| TurtRawResponse { code, out: list(vec![Json::Bool(true)]), text: "[true]".to_string() };
    assert!(matches!(raw(0).into_response(), Ok(TurtResponse::Value(Json::List(_)))));
    match raw(-1).into_response() {
        Ok(TurtResponse::BadReq(e)) => assert_eq!(e, "[true]"),
        _ => panic!(),
    }
    match raw(-2).into_response() {
        Ok(TurtResponse::BadCode(e)) => assert_eq!(e, "[true]"),
        _ => panic!(),
    }
    assert_eq!(raw(1).into_response().unwrap_err(), InvalidCode);
    assert_eq!(raw(-3).into_response().unwrap_err(), InvalidCode);
}

#[test]
fn error_responses_give_typed_errors() {
    match TurtMovement::try_from(TurtResponse::BadReq("bad".to_string())) {
        Err(TurtError::BadReq(e)) => assert_eq!(e, "bad"),
        _ => panic!(),
    }
    match TurtInspect::try_from(TurtResponse::BadCode("worse".to_string())) {
        Err(TurtError::BadCode(e)) => assert_eq!(e, "worse"),
        _ => panic!(),
    }
    match TurtSlot::try_from(TurtResponse::Value(list(vec![]))) {
        Err(TurtError::Decode(f)) => assert_eq!(f, DecodeFault::NoItem),
        _ => panic!(),
    }
    assert!(TurtMovement::try_from(TurtResponse::Value(list(vec![Json::Bool(true)]))).unwrap().success());
}

#[test]
fn located_positions_are_three_integers() {
    assert_eq!(
        located_from_json(&list(vec![Json::Int(10), Json::Int(64), Json::Int(5)])),
        Ok((10, 64, 5))
    );
    assert_eq!(located_from_json(&list(vec![Json::Int(10), Json::Int(64)])), Err(DecodeFault::InvalidResponse));
    assert_eq!(
        located_from_json(&list(vec![Json::Int(10), Json::Real, Json::Int(5)])),
        Err(DecodeFault::NotANumber)
    );
    assert_eq!(located_from_json(&Json::Null), Err(DecodeFault::NotAnArray));
}

#[test]
fn wire_commands() {
    let t = TurtControl::new();
    assert_eq!(t.mv_forw(), "turtle.forward()");
    assert_eq!(t.mv_back(), "turtle.back()");
    assert_eq!(t.mv_up(), "turtle.up()");
    assert_eq!(t.mv_down(), "turtle.down()");
    assert_eq!(t.turn_left(), "turtle.turnLeft()");
    assert_eq!(t.turn_right(), "turtle.turnRight()");
    assert_eq!(t.dig_forw(), "turtle.dig()");
    assert_eq!(t.dig_up(), "turtle.digUp()");
    assert_eq!(t.dig_down(), "turtle.digDown()");
    assert_eq!(t.insp_forw(), "turtle.inspect()");
    assert_eq!(t.insp_up(), "turtle.inspectUp()");
    assert_eq!(t.insp_down(), "turtle.inspectDown()");
    assert_eq!(t.inv_select(0), "turtle.select(1)");
    assert_eq!(t.inv_select(8), "turtle.select(9)");
    assert_eq!(t.inv_select(9), "turtle.select(10)");
    assert_eq!(t.inv_select(15), "turtle.select(16)");
    assert_eq!(t.inv_item_detail(0), "turtle.getItemDetail(1)");
    assert_eq!(t.inv_item_detail(15), "turtle.getItemDetail(16)");
    assert_eq!(t.inv_drop_forw(), "turtle.drop()");
    assert_eq!(t.inv_drop_up(), "turtle.dropUp()");
    assert_eq!(t.inv_drop_down(), "turtle.dropDown()");
    assert_eq!(t.suck(), "turtle.suck()");
    assert_eq!(t.suck_up(), "turtle.suckUp()");
    assert_eq!(t.suck_down(), "turtle.suckDown()");
    assert_eq!(t.place_forw(), "turtle.place()");
    assert_eq!(t.place_up(), "turtle.placeUp()");
    assert_eq!(t.place_down(), "turtle.placeDown()");
    assert_eq!(t.gps(), "gps.locate()");
    assert_eq!(t.print("Out of blocks! Please add more."), "print(\"Out of blocks! Please add more.\")");
    assert_eq!(t.disconnect(), "EXIT");
    assert_eq!(t.make_req("turtle.refuel()"), "turtle.refuel()");
}

#[test]
fn short_names_give_the_same_commands() {
    let t = Turt::new();
    assert_eq!(t.m_forw(), "turtle.forward()");
    assert_eq!(t.m_back(), "turtle.back()");
    assert_eq!(t.m_up(), "turtle.up()");
    assert_eq!(t.m_down(), "turtle.down()");
    assert_eq!(t.t_left(), "turtle.turnLeft()");
    assert_eq!(t.t_right(), "turtle.turnRight()");
    assert_eq!(t.d_forw(), "turtle.dig()");
    assert_eq!(t.d_up(), "turtle.digUp()");
    assert_eq!(t.d_down(), "turtle.digDown()");
    assert_eq!(t.i_forw(), "turtle.inspect()");
    assert_eq!(t.i_up(), "turtle.inspectUp()");
    assert_eq!(t.i_down(), "turtle.inspectDown()");
    assert_eq!(t.inv_select(3), "turtle.select(4)");
    assert_eq!(t.inv_item_detail(11), "turtle.getItemDetail(12)");
    assert_eq!(t.inv_drop_forw(), "turtle.drop()");
    assert_eq!(t.inv_drop_up(), "turtle.dropUp()");
    assert_eq!(t.inv_drop_down(), "turtle.dropDown()");
    assert_eq!(t.p_forw(), "turtle.place()");
    assert_eq!(t.p_up(), "turtle.placeUp()");
    assert_eq!(t.p_down(), "turtle.placeDown()");
    assert_eq!(t.disconnect(), "EXIT");
}

#[test]
fn short_results() {
    let m = Movement::from_json(&list(vec![Json::Bool(false), Json::Text("no".to_string())])).unwrap();
    assert!(!m.success());
    assert_eq!(*m.msg(), Some("no".to_string()));
    let i = Inspect::from_json(&list(vec![Json::Bool(true), named("minecraft:stone")])).unwrap();
    assert!(i.block());
    assert_eq!(*i.name(), Some("minecraft:stone".to_string()));
    let i = Inspect::from_json(&list(vec![Json::Bool(false), Json::Null])).unwrap();
    assert!(!i.block());
    assert_eq!(*i.name(), None);
    assert_eq!(Inspect::from_json(&Json::Null).unwrap_err(), DecodeFault::NotAnArray);
}

#[test]
fn headings() {
    assert_eq!(Head::from_str("n"), Ok(Head::N));
    assert_eq!(Head::from_str("e"), Ok(Head::E));
    assert_eq!(Head::from_str("s"), Ok(Head::S));
    assert_eq!(Head::from_str("w"), Ok(Head::W));
    assert!(Head::from_str("N").is_err());
    assert!(Head::from_str("").is_err());
    assert!(Head::from_str("ne").is_err());
    for (h, t) in [(Head::N, "n"), (Head::E, "e"), (Head::S, "s"), (Head::W, "w")] {
        assert_eq!(h.to_string(), t);
        assert_eq!(Head::from_str(&h.to_string()), Ok(h));
    }
}

#[test]
fn heading_differences() {
    let all = [Head::N, Head::E, Head::S, Head::W];
    assert_eq!(Head::N.diff(&Head::E), 1);
    assert_eq!(Head::N.diff(&Head::S), 2);
    assert_eq!(Head::N.diff(&Head::W), -1);
    assert_eq!(Head::E.diff(&Head::W), 2);
    assert_eq!(Head::W.diff(&Head::N), 1);
    assert_eq!(Head::S.diff(&Head::E), -1);
    for a in all {
        for b in all {
            let d = a.diff(&b);
            assert!((-1..=2).contains(&d));
            assert_eq!((d + b.diff(&a)).rem_euclid(4), 0);
            if d == 2 {
                assert_eq!(b.diff(&a), 2);
            }
            assert_eq!(d == 0, a == b);
        }
        assert_eq!(a.diff(&a.right()), 1);
        assert_eq!(a.diff(&a.left()), -1);
    }
}
