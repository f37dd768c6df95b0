//! A light as the Hue bridge reports it, and the commands that set it.

use crate::json::{
    array_value, bool_value, clone_value, entries, insert, integer_value, json, json_field, json_items, new_object, object_value,
    Json,
};
use crate::text::same;
use vstd::prelude::*;

verus! {

/// A point of the CIE chromaticity diagram. The coordinates are JSON numbers
/// and are only passed on.
#[derive(Debug, PartialEq)]
pub struct Xy {
    pub x: serde_json::Value,
    pub y: serde_json::Value,
}

/// The coordinates of a point.
pub struct XyView {
    pub x: Json,
    pub y: Json,
}

impl View for Xy {
    type V = XyView;

    open spec fn view(&self) -> XyView {
        XyView { x: json(self.x), y: json(self.y) }
    }
}

impl Clone for Xy {
    fn clone(&self) -> (point: Xy)
        ensures
            point@ == self@,
    {
        Xy { x: clone_value(&self.x), y: clone_value(&self.y) }
    }
}

/// What the light shows.
#[derive(Debug, PartialEq)]
pub struct HueState {
    pub on: bool,
    pub bri: Option<u8>,
    pub hue: Option<u16>,
    pub sat: Option<u8>,
    pub xy: Option<Xy>,
    pub ct: Option<u16>,
    pub colormode: Option<String>,
}

/// What the light shows, as mathematics.
#[verifier::ext_equal]
pub struct HueStateView {
    pub on: bool,
    pub bri: Option<u8>,
    pub hue: Option<u16>,
    pub sat: Option<u8>,
    pub xy: Option<XyView>,
    pub ct: Option<u16>,
    pub colormode: Option<Seq<char>>,
}

impl View for HueState {
    type V = HueStateView;

    open spec fn view(&self) -> HueStateView {
        HueStateView {
            on: self.on,
            bri: self.bri,
            hue: self.hue,
            sat: self.sat,
            xy: match self.xy {
                Some(xy) => Some(xy@),
                None => None,
            },
            ct: self.ct,
            colormode: match self.colormode {
                Some(mode) => Some(mode@),
                None => None,
            },
        }
    }
}

impl Clone for HueState {
    fn clone(&self) -> (state: HueState)
        ensures
            state@ == self@,
    {
        HueState {
            on: self.on,
            bri: self.bri,
            hue: self.hue,
            sat: self.sat,
            xy: match &self.xy {
                Some(xy) => Some(xy.clone()),
                None => None,
            },
            ct: self.ct,
            colormode: match &self.colormode {
                Some(mode) => Some(mode.clone()),
                None => None,
            },
        }
    }
}

/// The colour temperatures that a light can show, in mired.
#[derive(Debug, Clone, Copy, PartialEq)]
pub struct HueTemperatureRange {
    pub min: u16,
    pub max: u16,
}

/// What can be set on a light.
#[derive(Debug, PartialEq)]
pub struct HueControl {
    pub colorgamut: Option<Vec<Xy>>,
    pub ct: Option<HueTemperatureRange>,
}

/// What a light can do.
#[derive(Debug, PartialEq)]
pub struct HueCapabilities {
    pub control: HueControl,
}

/// A light of the bridge.
#[derive(Debug, PartialEq)]
pub struct HueLight {
    pub name: String,
    pub productname: Option<String>,
    pub state: HueState,
    pub capabilities: HueCapabilities,
}

/// The fields with one more, where it has a value.
pub open spec fn with_field(fields: Map<Seq<char>, Json>, key: Seq<char>, value: Option<Json>) -> Map<Seq<char>, Json> {
    match value {
        Some(value) => fields.insert(key, value),
        None => fields,
    }
}

/// An optional number as JSON.
pub open spec fn optional_u8(number: Option<u8>) -> Option<Json> {
    match number {
        Some(number) => Some(Json::Integer(number as int)),
        None => None,
    }
}

/// An optional number as JSON.
pub open spec fn optional_u16(number: Option<u16>) -> Option<Json> {
    match number {
        Some(number) => Some(Json::Integer(number as int)),
        None => None,
    }
}

/// A point as the bridge writes it: the array of its coordinates.
pub open spec fn point(xy: XyView) -> Json {
    Json::Items(seq![xy.x, xy.y])
}

/// An optional point as JSON.
pub open spec fn optional_point(xy: Option<XyView>) -> Option<Json> {
    match xy {
        Some(xy) => Some(point(xy)),
        None => None,
    }
}

/// The fields that bring back the colour of a state, in the colour mode that
/// the light was in, added to others.
pub open spec fn with_colour(fields: Map<Seq<char>, Json>, state: HueStateView) -> Map<Seq<char>, Json> {
    match state.colormode {
        Some(mode) => if mode == "xy"@ {
            with_field(fields, "xy"@, optional_point(state.xy))
        } else if mode == "ct"@ {
            with_field(fields, "ct"@, optional_u16(state.ct))
        } else if mode == "hs"@ {
            with_field(with_field(fields, "hue"@, optional_u16(state.hue)), "sat"@, optional_u8(state.sat))
        } else {
            fields
        },
        None => fields,
    }
}

/// The fields that switch a light at once.
pub open spec fn switch_fields(on: bool) -> Map<Seq<char>, Json> {
    Map::<Seq<char>, Json>::empty().insert("on"@, Json::Bool(on)).insert("transitiontime"@, Json::Integer(0))
}

/// The fields that bring back a state: for a light that was on its brightness
/// and its colour, for one that was off nothing but that.
pub open spec fn restore_fields(state: HueStateView) -> Map<Seq<char>, Json> {
    if state.on {
        with_colour(with_field(switch_fields(true), "bri"@, optional_u8(state.bri)), state)
    } else {
        switch_fields(false)
    }
}

pub(crate) fn insert_point(fields: &mut serde_json::Map<String, serde_json::Value>, key: &str, xy: &Xy)
    ensures
        entries(*final(fields)) == entries(*old(fields)).insert(key@, point(xy@)),
{
    let mut items: Vec<serde_json::Value> = Vec::new();
    items.push(clone_value(&xy.x));
    items.push(clone_value(&xy.y));
    assert(json_items(items@) =~= seq![xy@.x, xy@.y]);
    insert(fields, key, array_value(items));
}

pub(crate) fn insert_integer(fields: &mut serde_json::Map<String, serde_json::Value>, key: &str, number: u16)
    ensures
        entries(*final(fields)) == entries(*old(fields)).insert(key@, Json::Integer(number as int)),
{
    insert(fields, key, integer_value(number));
}

pub(crate) fn switch_object(on: bool) -> (fields: serde_json::Map<String, serde_json::Value>)
    ensures
        entries(fields) == switch_fields(on),
{
    let mut fields = new_object();
    insert(&mut fields, "on", bool_value(on));
    insert_integer(&mut fields, "transitiontime", 0);
    fields
}

/// The command that makes a light dark at once.
pub fn dark_command() -> (command: serde_json::Value)
    ensures
        json(command) == Json::Object(switch_fields(false)),
{
    object_value(switch_object(false))
}

/// The command that brings a light back to a state.
pub fn restore_command(state: &HueState) -> (command: serde_json::Value)
    ensures
        json(command) == Json::Object(restore_fields(state@)),
{
    let mut fields = switch_object(state.on);
    if !state.on {
        return object_value(fields);
    }
    if let Some(bri) = state.bri {
        insert_integer(&mut fields, "bri", bri as u16);
    }
    if let Some(mode) = &state.colormode {
        if same(mode, "xy") {
            if let Some(xy) = &state.xy {
                insert_point(&mut fields, "xy", xy);
            }
        } else if same(mode, "ct") {
            if let Some(ct) = state.ct {
                insert_integer(&mut fields, "ct", ct);
            }
        } else if same(mode, "hs") {
            if let Some(hue) = state.hue {
                insert_integer(&mut fields, "hue", hue);
            }
            if let Some(sat) = state.sat {
                insert_integer(&mut fields, "sat", sat as u16);
            }
        }
    }
    object_value(fields)
}

/// What a command to bring a light back says of a field.
pub open spec fn restored(state: HueStateView, key: Seq<char>) -> Option<Json> {
    json_field(Json::Object(restore_fields(state)), key)
}

/// Bringing back a light that was on sets the brightness it had and, in the
/// colour mode it was in, the colour it had, and no other colour. Bringing back
/// one that was off leaves its brightness and its colour alone.
pub proof fn a_light_is_brought_back_as_it_was(state: HueStateView)
    ensures
        restored(state, "on"@) == Some(Json::Bool(state.on)),
        restored(state, "transitiontime"@) == Some(Json::Integer(0)),
        restored(state, "bri"@) == (if state.on {
            optional_u8(state.bri)
        } else {
            None
        }),
        restored(state, "xy"@) == (if state.on && state.colormode == Some("xy"@) {
            optional_point(state.xy)
        } else {
            None
        }),
        restored(state, "ct"@) == (if state.on && state.colormode == Some("ct"@) {
            optional_u16(state.ct)
        } else {
            None
        }),
        restored(state, "hue"@) == (if state.on && state.colormode == Some("hs"@) {
            optional_u16(state.hue)
        } else {
            None
        }),
        restored(state, "sat"@) == (if state.on && state.colormode == Some("hs"@) {
            optional_u8(state.sat)
        } else {
            None
        }),
{
    field_names_differ();
}

/// No two of the fields of a command have the same name.
pub(crate) proof fn field_names_differ()
    ensures
        "on"@ != "transitiontime"@,
        "on"@ != "bri"@,
        "on"@ != "xy"@,
        "on"@ != "ct"@,
        "on"@ != "hue"@,
        "on"@ != "sat"@,
        "transitiontime"@ != "bri"@,
        "transitiontime"@ != "xy"@,
        "transitiontime"@ != "ct"@,
        "transitiontime"@ != "hue"@,
        "transitiontime"@ != "sat"@,
        "bri"@ != "xy"@,
        "bri"@ != "ct"@,
        "bri"@ != "hue"@,
        "bri"@ != "sat"@,
        "xy"@ != "ct"@,
        "xy"@ != "hue"@,
        "xy"@ != "sat"@,
        "ct"@ != "hue"@,
        "ct"@ != "sat"@,
        "hue"@ != "sat"@,
        "xy"@ != "hs"@,
        "ct"@ != "hs"@,
{
    reveal_strlit("on");
    reveal_strlit("transitiontime");
    reveal_strlit("bri");
    reveal_strlit("xy");
    reveal_strlit("ct");
    reveal_strlit("hue");
    reveal_strlit("sat");
    reveal_strlit("hs");
    assert("on"@[0] == 'o' && "transitiontime"@[0] == 't' && "bri"@[0] == 'b' && "xy"@[0] == 'x');
    assert("ct"@[0] == 'c' && "hue"@[0] == 'h' && "sat"@[0] == 's' && "hs"@[0] == 'h');
}

/// The state of a light is seen with all that it tells.
pub proof fn a_state_is_seen_as_it_is(state: HueState)
    ensures
        state@.on == state.on,
        state@.bri == state.bri,
        state@.hue == state.hue,
        state@.sat == state.sat,
        state@.ct == state.ct,
        state@.xy is Some <==> state.xy is Some,
        state.xy matches Some(xy) ==> state@.xy->0.x == json(xy.x) && state@.xy->0.y == json(xy.y),
        state@.colormode is Some <==> state.colormode is Some,
        state.colormode matches Some(mode) ==> state@.colormode == Some(mode@),
{
}

/// A command that switches a light says that, that it is to be at once, and
/// nothing else.
pub proof fn switching_says_nothing_else(on: bool, key: Seq<char>)
    ensures
        json_field(Json::Object(switch_fields(on)), "on"@) == Some(Json::Bool(on)),
        json_field(Json::Object(switch_fields(on)), "transitiontime"@) == Some(Json::Integer(0)),
        key != "on"@ && key != "transitiontime"@ ==> json_field(Json::Object(switch_fields(on)), key) is None,
{
    field_names_differ();
}

/// A light is brought back by what it reported, number for number: a light that
/// was on by its brightness, and by its point, its temperature, or its hue and
/// saturation, whichever mode it was in; of a light that was off nothing is set
/// but that. The command says nothing else.
pub proof fn a_light_is_brought_back_by_what_it_reported(state: HueState, mode: Seq<char>, key: Seq<char>)
    requires
        state.colormode matches Some(reported) ==> reported@ == mode,
    ensures
        ({
            let command = Json::Object(restore_fields(state@));
            let coloured = state.on && state.colormode is Some;
            &&& json_field(command, "on"@) == Some(Json::Bool(state.on))
            &&& json_field(command, "transitiontime"@) == Some(Json::Integer(0))
            &&& json_field(command, "bri"@) == (if state.on && state.bri is Some {
                Some(Json::Integer(state.bri->0 as int))
            } else {
                None
            })
            &&& json_field(command, "xy"@) == (if coloured && mode == "xy"@ && state.xy is Some {
                Some(Json::Items(seq![json(state.xy->0.x), json(state.xy->0.y)]))
            } else {
                None
            })
            &&& json_field(command, "ct"@) == (if coloured && mode == "ct"@ && state.ct is Some {
                Some(Json::Integer(state.ct->0 as int))
            } else {
                None
            })
            &&& json_field(command, "hue"@) == (if coloured && mode == "hs"@ && state.hue is Some {
                Some(Json::Integer(state.hue->0 as int))
            } else {
                None
            })
            &&& json_field(command, "sat"@) == (if coloured && mode == "hs"@ && state.sat is Some {
                Some(Json::Integer(state.sat->0 as int))
            } else {
                None
            })
            &&& json_field(command, key) is Some ==> {
                ||| key == "on"@
                ||| key == "transitiontime"@
                ||| key == "bri"@
                ||| key == "xy"@
                ||| key == "ct"@
                ||| key == "hue"@
                ||| key == "sat"@
            }
        }),
{
    field_names_differ();
}

} // verus!
