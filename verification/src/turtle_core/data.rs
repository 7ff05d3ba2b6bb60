//! Data that is passed between the turtle (client) and the controller.
//!
//! A turtle answers every command with a status code and a JSON value.  The
//! JSON is held here as a plain tree, and the typed results are read from it.

use vstd::prelude::*;

verus! {

/// A JSON value, as far as the controller reads it.
#[derive(Debug)]
pub enum Json {
    Null,
    Bool(bool),
    /// A number that is a 64-bit integer.
    Int(i64),
    /// Any other number.
    Real,
    Text(String),
    List(Vec<Json>),
    /// The members of an object, in the order in which they were given.
    Object(Vec<(String, Json)>),
}

/// What a turtle reports for one command.
#[derive(Debug)]
pub enum TurtResponse {
    /// The request was malformed.
    BadReq(String),
    /// The remote script failed.
    BadCode(String),
    /// The value that the remote function returned.
    Value(Json),
}

/// A response as it arrives: the status code, the value and the text of the
/// value.
#[derive(Debug)]
pub struct TurtRawResponse {
    pub code: i32,
    pub out: Json,
    pub text: String,
}

/// The status code of a raw response is none of 0, -1 and -2.
#[derive(Debug, Clone, Copy, PartialEq, Eq, Structural)]
pub struct InvalidCode;

/// Why a JSON value could not be read as a typed result.
#[derive(Debug, Clone, Copy, PartialEq, Eq, Structural)]
pub enum DecodeFault {
    NotAnArray,
    InvalidResponse,
    NotABool,
    NoMsg,
    NoName,
    NoItem,
    NotAnObject,
    NoCount,
    NotANumber,
}

/// Why a response gave no typed result.
#[derive(Debug, Clone)]
pub enum TurtError {
    BadReq(String),
    BadCode(String),
    Decode(DecodeFault),
}

/// An item stack in one inventory slot.
#[derive(Debug, Clone)]
pub struct TurtSlot {
    count: i32,
    name: String,
}

/// Outcome of a movement, a turn or a dig.
#[derive(Debug, Clone)]
pub struct TurtMovement {
    success: bool,
    msg: Option<String>,
}

/// Outcome of looking at a neighbouring block.
#[derive(Debug, Clone)]
pub struct TurtInspect {
    block: Option<String>,
}

/// Model of a slot: the count and the item name.
pub struct SlotView {
    pub count: int,
    pub name: Seq<char>,
}

/// Model of a movement: the success flag and the message, if any.
pub struct MovementView {
    pub success: bool,
    pub msg: Option<Seq<char>>,
}

/// Model of a response: which of the three shapes it has, with the text or
/// the value.
pub enum ResponseView {
    BadReq(Seq<char>),
    BadCode(Seq<char>),
    Value(Json),
}

/// A text that may be missing, seen as its characters.
pub open spec fn opt_text(s: Option<String>) -> Option<Seq<char>> {
    match s {
        Some(t) => Some(t@),
        None => None,
    }
}

/// The value of the first member of an object that has the given key.
pub open spec fn spec_field(o: Seq<(String, Json)>, key: Seq<char>) -> Option<Json>
    decreases o.len(),
{
    if o.len() == 0 {
        None
    } else if o[0].0@ == key {
        Some(o[0].1)
    } else {
        spec_field(o.skip(1), key)
    }
}

/// A movement is an array of one or two elements: a boolean, and optionally a
/// message.
pub open spec fn spec_movement(j: Json) -> Result<MovementView, DecodeFault> {
    match j {
        Json::List(v) => if v@.len() < 1 || v@.len() > 2 {
            Err(DecodeFault::InvalidResponse)
        } else {
            match v@[0] {
                Json::Bool(success) => if v@.len() == 1 {
                    Ok(MovementView { success, msg: None })
                } else {
                    match v@[1] {
                        Json::Text(m) => Ok(MovementView { success, msg: Some(m@) }),
                        _ => Err(DecodeFault::NoMsg),
                    }
                },
                _ => Err(DecodeFault::NotABool),
            }
        },
        _ => Err(DecodeFault::NotAnArray),
    }
}

/// The name found under the key `name` of an object.
pub open spec fn spec_name_of(j: Json) -> Option<Seq<char>> {
    match j {
        Json::Object(o) => match spec_field(o@, "name"@) {
            Some(Json::Text(n)) => Some(n@),
            _ => None,
        },
        _ => None,
    }
}

/// An inspection is an array of two elements: a boolean that says whether a
/// block is there, and an object that names it.
pub open spec fn spec_inspect(j: Json) -> Result<Option<Seq<char>>, DecodeFault> {
    match j {
        Json::List(v) => if v@.len() != 2 {
            Err(DecodeFault::InvalidResponse)
        } else {
            match v@[0] {
                Json::Bool(block) => if !block {
                    Ok(None)
                } else {
                    match spec_name_of(v@[1]) {
                        Some(n) => Ok(Some(n)),
                        None => Err(DecodeFault::NoName),
                    }
                },
                _ => Err(DecodeFault::NotABool),
            }
        },
        _ => Err(DecodeFault::NotAnArray),
    }
}

/// A slot detail is an array whose first element is an object with a count
/// and a name.  The empty array stands for an empty slot.
pub open spec fn spec_slot(j: Json) -> Result<SlotView, DecodeFault> {
    match j {
        Json::List(v) => if v@.len() == 0 {
            Err(DecodeFault::NoItem)
        } else {
            match v@[0] {
                Json::Object(o) => match spec_field(o@, "count"@) {
                    Some(Json::Int(c)) => if i32::MIN <= c <= i32::MAX {
                        match spec_field(o@, "name"@) {
                            Some(Json::Text(n)) => Ok(SlotView { count: c as int, name: n@ }),
                            _ => Err(DecodeFault::NoName),
                        }
                    } else {
                        Err(DecodeFault::NoCount)
                    },
                    _ => Err(DecodeFault::NoCount),
                },
                _ => Err(DecodeFault::NotAnObject),
            }
        },
        _ => Err(DecodeFault::NotAnArray),
    }
}

/// A located position is an array that begins with three integers.
pub open spec fn spec_located(j: Json) -> Result<(i64, i64, i64), DecodeFault> {
    match j {
        Json::List(v) => if v@.len() < 3 {
            Err(DecodeFault::InvalidResponse)
        } else {
            match (v@[0], v@[1], v@[2]) {
                (Json::Int(x), Json::Int(y), Json::Int(z)) => Ok((x, y, z)),
                _ => Err(DecodeFault::NotANumber),
            }
        },
        _ => Err(DecodeFault::NotAnArray),
    }
}

/// Looks up the first member of an object that has the given key.
pub fn field<'a>(o: &'a Vec<(String, Json)>, key: &str) -> (r: Option<&'a Json>)
    ensures
        r == match spec_field(o@, key@) {
            Some(j) => Some(&j),
            None => None,
        },
{
    let wanted = key.to_string();
    let mut i: usize = 0;
    assert(o@.skip(0) =~= o@);
    while i < o.len()
        invariant
            0 <= i <= o.len(),
            wanted@ == key@,
            spec_field(o@, key@) == spec_field(o@.skip(i as int), key@),
        decreases o.len() - i,
    {
        let ghost rest = o@.skip(i as int);
        assert(rest[0] == o@[i as int]);
        assert(rest.skip(1) =~= o@.skip(i + 1));
        if o[i].0 == wanted {
            return Some(&o[i].1);
        }
        i = i + 1;
    }
    None
}

impl View for TurtSlot {
    type V = SlotView;

    closed spec fn view(&self) -> SlotView {
        SlotView { count: self.count as int, name: self.name@ }
    }
}

impl View for TurtMovement {
    type V = MovementView;

    closed spec fn view(&self) -> MovementView {
        MovementView { success: self.success, msg: opt_text(self.msg) }
    }
}

impl View for TurtInspect {
    type V = Option<Seq<char>>;

    closed spec fn view(&self) -> Option<Seq<char>> {
        opt_text(self.block)
    }
}

impl View for TurtResponse {
    type V = ResponseView;

    open spec fn view(&self) -> ResponseView {
        match *self {
            TurtResponse::BadReq(e) => ResponseView::BadReq(e@),
            TurtResponse::BadCode(e) => ResponseView::BadCode(e@),
            TurtResponse::Value(j) => ResponseView::Value(j),
        }
    }
}

/// What a typed reading of a response gives, for a reader of JSON values whose
/// result is `decoded`: the reader's result for a value, the error text for
/// the two error shapes.
pub open spec fn spec_typed<V>(
    resp: TurtResponse,
    decoded: Result<V, DecodeFault>,
    r: Result<V, TurtError>,
) -> bool {
    match resp {
        TurtResponse::Value(_) => match decoded {
            Ok(v) => r == Ok::<V, TurtError>(v),
            Err(f) => r is Err && r->Err_0 == TurtError::Decode(f),
        },
        TurtResponse::BadReq(e) => r is Err && r->Err_0 is BadReq && r->Err_0->BadReq_0@ == e@,
        TurtResponse::BadCode(e) => r is Err && r->Err_0 is BadCode && r->Err_0->BadCode_0@
            == e@,
    }
}

/// A result with its value seen as its model.
pub open spec fn view_result<T: View>(r: Result<T, TurtError>) -> Result<T::V, TurtError> {
    match r {
        Ok(v) => Ok(v@),
        Err(e) => Err(e),
    }
}

/// The value that a response carries; null where it carries none.
pub open spec fn value_of(resp: TurtResponse) -> Json {
    match resp {
        TurtResponse::Value(j) => j,
        _ => Json::Null,
    }
}

impl TurtRawResponse {
    /// Sorts a raw response by its status code: 0 carries a value, -1 reports
    /// a malformed request, -2 a failed remote script.  Any other code is
    /// rejected.
    pub fn into_response(self) -> (r: Result<TurtResponse, InvalidCode>)
        ensures
            self.code == 0 ==> r is Ok && r->Ok_0@ == ResponseView::Value(self.out),
            self.code == -1 ==> r is Ok && r->Ok_0@ == ResponseView::BadReq(self.text@),
            self.code == -2 ==> r is Ok && r->Ok_0@ == ResponseView::BadCode(self.text@),
            r is Ok <==> (self.code == 0 || self.code == -1 || self.code == -2),
    {
        if self.code == 0 {
            Ok(TurtResponse::Value(self.out))
        } else if self.code == -1 {
            Ok(TurtResponse::BadReq(self.text))
        } else if self.code == -2 {
            Ok(TurtResponse::BadCode(self.text))
        } else {
            Err(InvalidCode)
        }
    }
}

impl TurtSlot {
    pub fn new(count: i32, name: String) -> (r: TurtSlot)
        ensures
            r@ == (SlotView { count: count as int, name: name@ }),
    {
        TurtSlot { count, name }
    }

    pub fn count(&self) -> (r: i32)
        ensures
            r == self@.count,
    {
        self.count
    }

    pub fn name(&self) -> (r: &str)
        ensures
            r@ == self@.name,
    {
        self.name.as_str()
    }

    pub fn is_empty(&self) -> (r: bool)
        ensures
            r == (self@.count == 0),
    {
        self.count == 0
    }

    /// Takes `n` items off the stack.
    pub fn reduce_count(&mut self, n: i32)
        requires
            i32::MIN <= old(self)@.count - n <= i32::MAX,
        ensures
            final(self)@ == (SlotView { count: old(self)@.count - n, name: old(self)@.name }),
    {
        self.count = self.count - n;
    }

    /// Reads a slot detail from the value that the turtle returned.
    pub fn from_json(j: &Json) -> (r: Result<TurtSlot, DecodeFault>)
        ensures
            match spec_slot(*j) {
                Ok(v) => r is Ok && r->Ok_0@ == v,
                Err(f) => r == Err::<TurtSlot, DecodeFault>(f),
            },
    {
        match j {
            Json::List(v) => {
                if v.len() == 0 {
                    return Err(DecodeFault::NoItem);
                }
                match &v[0] {
                    Json::Object(o) => {
                        let count = match field(o, "count") {
                            Some(Json::Int(c)) => {
                                if *c < -0x8000_0000 || *c > 0x7fff_ffff {
                                    return Err(DecodeFault::NoCount);
                                }
                                *c as i32
                            },
                            _ => {
                                return Err(DecodeFault::NoCount);
                            },
                        };
                        match field(o, "name") {
                            Some(Json::Text(n)) => Ok(TurtSlot { count, name: n.clone() }),
                            _ => Err(DecodeFault::NoName),
                        }
                    },
                    _ => Err(DecodeFault::NotAnObject),
                }
            },
            _ => Err(DecodeFault::NotAnArray),
        }
    }

    /// Reads a slot detail from a response.
    pub fn try_from(value: TurtResponse) -> (r: Result<TurtSlot, TurtError>)
        ensures
            spec_typed(value, spec_slot(value_of(value)), view_result(r)),
    {
        match value {
            TurtResponse::Value(v) => match TurtSlot::from_json(&v) {
                Ok(s) => Ok(s),
                Err(f) => Err(TurtError::Decode(f)),
            },
            TurtResponse::BadReq(e) => Err(TurtError::BadReq(e)),
            TurtResponse::BadCode(e) => Err(TurtError::BadCode(e)),
        }
    }

    /// The value that a turtle returns for this slot.
    pub fn to_json(&self) -> (r: Json)
        ensures
            spec_slot(r) == Ok::<SlotView, DecodeFault>(self@),
    {
        let mut o: Vec<(String, Json)> = Vec::new();
        o.push(("count".to_string(), Json::Int(self.count as i64)));
        o.push(("name".to_string(), Json::Text(self.name.clone())));
        proof {
            reveal_strlit("count");
            reveal_strlit("name");
            assert("count"@.len() == 5 && "name"@.len() == 4);
            assert(o@.skip(1)[0] == o@[1]);
            reveal_with_fuel(spec_field, 3);
        }
        let mut v: Vec<Json> = Vec::new();
        v.push(Json::Object(o));
        Json::List(v)
    }
}

impl TurtMovement {
    pub fn new(success: bool, msg: Option<String>) -> (r: TurtMovement)
        ensures
            r@ == (MovementView { success, msg: opt_text(msg) }),
    {
        TurtMovement { success, msg }
    }

    pub fn success(&self) -> (r: bool)
        ensures
            r == self@.success,
    {
        self.success
    }

    pub fn msg(&self) -> (r: &Option<String>)
        ensures
            opt_text(*r) == self@.msg,
    {
        &self.msg
    }

    /// Reads a movement from the value that the turtle returned.
    pub fn from_json(j: &Json) -> (r: Result<TurtMovement, DecodeFault>)
        ensures
            match spec_movement(*j) {
                Ok(v) => r is Ok && r->Ok_0@ == v,
                Err(f) => r == Err::<TurtMovement, DecodeFault>(f),
            },
    {
        match j {
            Json::List(vals) => {
                if vals.len() < 1 || vals.len() > 2 {
                    return Err(DecodeFault::InvalidResponse);
                }
                let success = match &vals[0] {
                    Json::Bool(b) => *b,
                    _ => {
                        return Err(DecodeFault::NotABool);
                    },
                };
                if vals.len() == 1 {
                    Ok(TurtMovement { success, msg: None })
                } else {
                    match &vals[1] {
                        Json::Text(m) => Ok(TurtMovement { success, msg: Some(m.clone()) }),
                        _ => Err(DecodeFault::NoMsg),
                    }
                }
            },
            _ => Err(DecodeFault::NotAnArray),
        }
    }

    /// Reads a movement from a response.
    pub fn try_from(value: TurtResponse) -> (r: Result<TurtMovement, TurtError>)
        ensures
            spec_typed(value, spec_movement(value_of(value)), view_result(r)),
    {
        match value {
            TurtResponse::Value(v) => match TurtMovement::from_json(&v) {
                Ok(s) => Ok(s),
                Err(f) => Err(TurtError::Decode(f)),
            },
            TurtResponse::BadReq(e) => Err(TurtError::BadReq(e)),
            TurtResponse::BadCode(e) => Err(TurtError::BadCode(e)),
        }
    }

    /// The value that a turtle returns for this movement.
    pub fn to_json(&self) -> (r: Json)
        ensures
            spec_movement(r) == Ok::<MovementView, DecodeFault>(self@),
    {
        let mut v: Vec<Json> = Vec::new();
        v.push(Json::Bool(self.success));
        match &self.msg {
            Some(m) => {
                v.push(Json::Text(m.clone()));
            },
            None => {},
        }
        Json::List(v)
    }
}

impl TurtInspect {
    pub fn new(block: Option<String>) -> (r: TurtInspect)
        ensures
            r@ == opt_text(block),
    {
        TurtInspect { block }
    }

    /// Name of the block that was seen; nothing for empty space.
    pub fn block(&self) -> (r: &Option<String>)
        ensures
            opt_text(*r) == self@,
    {
        &self.block
    }

    /// Reads an inspection from the value that the turtle returned.
    pub fn from_json(j: &Json) -> (r: Result<TurtInspect, DecodeFault>)
        ensures
            match spec_inspect(*j) {
                Ok(v) => r is Ok && r->Ok_0@ == v,
                Err(f) => r == Err::<TurtInspect, DecodeFault>(f),
            },
    {
        match j {
            Json::List(vals) => {
                if vals.len() != 2 {
                    return Err(DecodeFault::InvalidResponse);
                }
                let block = match &vals[0] {
                    Json::Bool(b) => *b,
                    _ => {
                        return Err(DecodeFault::NotABool);
                    },
                };
                if !block {
                    Ok(TurtInspect { block: None })
                } else {
                    match &vals[1] {
                        Json::Object(o) => match field(o, "name") {
                            Some(Json::Text(n)) => Ok(TurtInspect { block: Some(n.clone()) }),
                            _ => Err(DecodeFault::NoName),
                        },
                        _ => Err(DecodeFault::NoName),
                    }
                }
            },
            _ => Err(DecodeFault::NotAnArray),
        }
    }

    /// Reads an inspection from a response.
    pub fn try_from(value: TurtResponse) -> (r: Result<TurtInspect, TurtError>)
        ensures
            spec_typed(value, spec_inspect(value_of(value)), view_result(r)),
    {
        match value {
            TurtResponse::Value(v) => match TurtInspect::from_json(&v) {
                Ok(s) => Ok(s),
                Err(f) => Err(TurtError::Decode(f)),
            },
            TurtResponse::BadReq(e) => Err(TurtError::BadReq(e)),
            TurtResponse::BadCode(e) => Err(TurtError::BadCode(e)),
        }
    }

    /// The value that a turtle returns for this inspection.
    pub fn to_json(&self) -> (r: Json)
        ensures
            spec_inspect(r) == Ok::<Option<Seq<char>>, DecodeFault>(self@),
    {
        let mut v: Vec<Json> = Vec::new();
        match &self.block {
            Some(n) => {
                let mut o: Vec<(String, Json)> = Vec::new();
                o.push(("name".to_string(), Json::Text(n.clone())));
                v.push(Json::Bool(true));
                v.push(Json::Object(o));
            },
            None => {
                v.push(Json::Bool(false));
                v.push(Json::Null);
            },
        }
        Json::List(v)
    }
}

/// Reads the three coordinates of a located position.
pub fn located_from_json(j: &Json) -> (r: Result<(i64, i64, i64), DecodeFault>)
    ensures
        r == spec_located(*j),
{
    match j {
        Json::List(p) => {
            if p.len() < 3 {
                return Err(DecodeFault::InvalidResponse);
            }
            match (&p[0], &p[1], &p[2]) {
                (Json::Int(x), Json::Int(y), Json::Int(z)) => Ok((*x, *y, *z)),
                _ => Err(DecodeFault::NotANumber),
            }
        },
        _ => Err(DecodeFault::NotAnArray),
    }
}

} // verus!
