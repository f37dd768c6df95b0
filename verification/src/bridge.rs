//! Talking to the Hue bridge: what is sent to be let in, and what its replies
//! mean.

use crate::config::{lookup, required, required_env, Environment};
use crate::error::{ConfigError, Problem};
use crate::json::{as_array, as_str, get, insert, json, json_field, json_items, new_object, object_value, text_value, Json};
use crate::text::{contains, is_blank};
use vstd::prelude::*;
use vstd::string::*;
use vstd::utf8::encode_utf8;

verus! {

/// Whether a reply tells of an error: it is an array, and one of its items has
/// an `error` field.
pub open spec fn is_hue_error(reply: Json) -> bool {
    reply matches Json::Items(items) && exists|i: int|
        0 <= i < items.len() && json_field(#[trigger] items[i], "error"@) is Some
}

/// The `error` field of the first item that has one.
pub open spec fn first_error(items: Seq<Json>) -> Option<Json>
    decreases items.len(),
{
    if items.len() == 0 {
        None
    } else if json_field(items[0], "error"@) is Some {
        json_field(items[0], "error"@)
    } else {
        first_error(items.subrange(1, items.len() as int))
    }
}

/// The text that a field of a value holds.
pub open spec fn text_field(value: Json, key: Seq<char>) -> Option<Seq<char>> {
    match json_field(value, key) {
        Some(Json::Text(text)) => Some(text),
        _ => None,
    }
}

/// What a reply says went wrong: the description of its first error.
pub open spec fn error_message(reply: Json) -> Seq<char> {
    let described = match reply {
        Json::Items(items) => match first_error(items) {
            Some(error) => text_field(error, "description"@),
            None => None,
        },
        _ => None,
    };
    match described {
        Some(text) => text,
        None => "unknown bridge error"@,
    }
}

/// Whether a reply of the bridge tells of an error.
pub fn response_is_hue_error(response: &serde_json::Value) -> (found: bool)
    ensures
        found == is_hue_error(json(*response)),
{
    match as_array(response) {
        Some(items) => {
            let ghost models = json_items(items@);
            let mut i: usize = 0;
            while i < items.len()
                invariant
                    i <= items@.len(),
                    models == json_items(items@),
                    json(*response) == Json::Items(models),
                    forall|k: int| 0 <= k < i ==> json_field(#[trigger] models[k], "error"@) is None,
                decreases items@.len() - i,
            {
                assert(models[i as int] == json(items@[i as int]));
                if get(&items[i], "error").is_some() {
                    return true;
                }
                i = i + 1;
            }
            false
        },
        None => false,
    }
}

/// What a reply of the bridge says went wrong.
pub fn hue_error_message(response: &serde_json::Value) -> (text: String)
    ensures
        text@ == error_message(json(*response)),
{
    if let Some(items) = as_array(response) {
        let ghost models = json_items(items@);
        let mut i: usize = 0;
        assert(models.subrange(0, models.len() as int) =~= models);
        while i < items.len()
            invariant
                i <= items@.len(),
                models == json_items(items@),
                json(*response) == Json::Items(models),
                first_error(models) == first_error(models.subrange(i as int, models.len() as int)),
            decreases items@.len() - i,
        {
            let ghost rest = models.subrange(i as int, models.len() as int);
            assert(rest[0] == json(items@[i as int]));
            assert(rest.subrange(1, rest.len() as int) =~= models.subrange(i + 1, models.len() as int));
            if let Some(error) = get(&items[i], "error") {
                if let Some(description) = get(error, "description") {
                    if let Some(text) = as_str(description) {
                        return text.to_owned();
                    }
                }
                return "unknown bridge error".to_owned();
            }
            i = i + 1;
        }
    }
    "unknown bridge error".to_owned()
}

/// A failure told in words, or none, as mathematics.
pub open spec fn told(result: Result<(), String>) -> Option<Seq<char>> {
    match result {
        Ok(_) => None,
        Err(text) => Some(text@),
    }
}

/// What is told of a reply: nothing where it tells of no error, and otherwise the
/// words for what was tried, and what went wrong.
pub open spec fn refusal(words: Seq<char>, reply: Json) -> Option<Seq<char>> {
    if is_hue_error(reply) {
        Some(words + error_message(reply))
    } else {
        None
    }
}

/// Whether the bridge refused to answer a request, and why.
pub fn check_request_reply(response: &serde_json::Value) -> (checked: Result<(), String>)
    ensures
        told(checked) == (if is_hue_error(json(*response)) {
            Some("Hue request failed: "@ + error_message(json(*response)))
        } else {
            None
        }),
        told(checked) == refusal("Hue request failed: "@, json(*response)),
{
    if response_is_hue_error(response) {
        Err("Hue request failed: ".to_owned().concat(&hue_error_message(response)))
    } else {
        Ok(())
    }
}

/// Whether the bridge refused a command, and why.
pub fn check_command_reply(response: &serde_json::Value) -> (checked: Result<(), String>)
    ensures
        told(checked) == (if is_hue_error(json(*response)) {
            Some("Hue command failed: "@ + error_message(json(*response)))
        } else {
            None
        }),
        told(checked) == refusal("Hue command failed: "@, json(*response)),
{
    if response_is_hue_error(response) {
        Err("Hue command failed: ".to_owned().concat(&hue_error_message(response)))
    } else {
        Ok(())
    }
}

/// The key that the bridge grants: the `username` of the `success` of the first
/// item of its reply.
pub open spec fn granted_key(reply: Json) -> Option<Seq<char>> {
    match reply {
        Json::Items(items) => if items.len() > 0 {
            match json_field(items[0], "success"@) {
                Some(success) => text_field(success, "username"@),
                None => None,
            }
        } else {
            None
        },
        _ => None,
    }
}

/// The key that the bridge grants, or why it grants none.
pub fn authorization(response: &serde_json::Value) -> (key: Result<String, String>)
    ensures
        match key {
            Ok(key) => granted_key(json(*response)) == Some(key@),
            Err(text) => granted_key(json(*response)) is None && text@ == "Hue authorization failed: "@
                + error_message(json(*response)),
        },
{
    if let Some(items) = as_array(response) {
        if items.len() > 0 {
            assert(json_items(items@)[0] == json(items@[0]));
            if let Some(success) = get(&items[0], "success") {
                if let Some(username) = get(success, "username") {
                    if let Some(key) = as_str(username) {
                        return Ok(key.to_owned());
                    }
                }
            }
        }
    }
    Err("Hue authorization failed: ".to_owned().concat(&hue_error_message(response)))
}

/// What is sent to the bridge to be let in.
#[derive(Debug, PartialEq)]
pub struct AuthorizeRequest {
    pub bridge_ip: String,
    pub device_type: String,
}

/// What is sent to the bridge to be let in, as mathematics.
pub struct AuthorizeView {
    pub bridge_ip: Seq<char>,
    pub device_type: Seq<char>,
}

impl View for AuthorizeRequest {
    type V = AuthorizeView;

    open spec fn view(&self) -> AuthorizeView {
        AuthorizeView { bridge_ip: self.bridge_ip@, device_type: self.device_type@ }
    }
}

/// Whether the bridge takes a device type: it has a `#` in it and is at most
/// forty bytes long.
pub open spec fn is_device_type(device_type: Seq<char>) -> bool {
    encode_utf8(device_type).len() <= 40 && device_type.contains('#')
}

/// What the environment makes the service send to be let in.
pub open spec fn authorize_of(env: Map<Seq<char>, Seq<char>>) -> Result<AuthorizeView, Problem> {
    let device_type = match lookup(env, "HUE_DEVICE_TYPE"@) {
        Some(value) => value,
        None => "potato-hue#host"@,
    };
    match required(env, "HUE_BRIDGE_IP"@) {
        Err(problem) => Err(problem),
        Ok(bridge_ip) => if is_device_type(device_type) {
            Ok(AuthorizeView { bridge_ip, device_type })
        } else {
            Err(Problem::BadDeviceType)
        },
    }
}

/// Where a request to be let in is sent.
pub open spec fn authorize_address(request: AuthorizeView) -> Seq<char> {
    "http://"@ + request.bridge_ip + "/api"@
}

/// What a request to be let in says.
pub open spec fn authorize_fields(request: AuthorizeView) -> Map<Seq<char>, Json> {
    Map::<Seq<char>, Json>::empty().insert("devicetype"@, Json::Text(request.device_type))
}

impl AuthorizeRequest {
    /// What the environment makes the service send to be let in.
    pub fn from_env(env: &Environment) -> (request: Result<AuthorizeRequest, ConfigError>)
        ensures
            match request {
                Ok(request) => authorize_of(env@) == (Ok::<AuthorizeView, Problem>(request@)),
                Err(error) => authorize_of(env@) == (Err::<AuthorizeView, Problem>(error@)),
            },
    {
        let bridge_ip = match required_env(env, "HUE_BRIDGE_IP") {
            Ok(bridge_ip) => bridge_ip,
            Err(error) => return Err(error),
        };
        let device_type = match env.var("HUE_DEVICE_TYPE") {
            Some(value) => value,
            None => "potato-hue#host".to_owned(),
        };
        if device_type.as_str().as_bytes().len() > 40 || !contains(&device_type, '#') {
            return Err(ConfigError::BadDeviceType);
        }
        Ok(AuthorizeRequest { bridge_ip, device_type })
    }

    /// Where the request is sent.
    pub fn url(&self) -> (url: String)
        ensures
            url@ == "http://"@ + self@.bridge_ip + "/api"@,
            url@ == authorize_address(self@),
    {
        "http://".to_owned().concat(&self.bridge_ip).concat("/api")
    }

    /// What the request says.
    pub fn body(&self) -> (body: serde_json::Value)
        ensures
            json(body) == Json::Object(
                Map::<Seq<char>, Json>::empty().insert("devicetype"@, Json::Text(self@.device_type)),
            ),
            json(body) == Json::Object(authorize_fields(self@)),
    {
        let mut fields = new_object();
        insert(&mut fields, "devicetype", text_value(self.device_type.clone()));
        object_value(fields)
    }
}

proof fn errors_are_found(items: Seq<Json>)
    ensures
        first_error(items) is Some <==> exists|i: int|
            0 <= i < items.len() && json_field(#[trigger] items[i], "error"@) is Some,
    decreases items.len(),
{
    if items.len() > 0 && json_field(items[0], "error"@) is None {
        let rest = items.subrange(1, items.len() as int);
        errors_are_found(rest);
        if first_error(rest) is Some {
            let i = choose|i: int| 0 <= i < rest.len() && json_field(#[trigger] rest[i], "error"@) is Some;
            assert(items[i + 1] == rest[i]);
        }
        assert forall|i: int| 0 <= i < items.len() && json_field(#[trigger] items[i], "error"@) is Some implies first_error(
            items,
        ) is Some by {
            assert(rest[i - 1] == items[i]);
        }
    }
}

/// A reply tells of an error exactly where it has a first error to tell of.
pub proof fn a_reply_with_an_error_has_a_first_one(reply: Json)
    ensures
        is_hue_error(reply) <==> (reply matches Json::Items(items) && first_error(items) is Some),
{
    if let Json::Items(items) = reply {
        errors_are_found(items);
    }
}

/// The key that is granted is the whole text of the `username` of the `success`
/// of the first item of the reply, and a reply without that grants none.
pub proof fn the_key_is_granted_as_it_is(reply: Json, key: Seq<char>)
    ensures
        granted_key(reply) == Some(key) <==> {
            &&& reply is Items
            &&& reply->Items_0.len() > 0
            &&& reply->Items_0[0] is Object
            &&& reply->Items_0[0]->Object_0.contains_key("success"@)
            &&& reply->Items_0[0]->Object_0["success"@] is Object
            &&& reply->Items_0[0]->Object_0["success"@]->Object_0.contains_key("username"@)
            &&& reply->Items_0[0]->Object_0["success"@]->Object_0["username"@] == Json::Text(key)
        },
{
}

/// A reply tells of an error exactly where it is an array with an object in it
/// that has an `error`.
pub proof fn a_reply_tells_of_an_error_by_an_item(reply: Json)
    ensures
        is_hue_error(reply) <==> {
            &&& reply is Items
            &&& exists|i: int|
                0 <= i < reply->Items_0.len() && (#[trigger] reply->Items_0[i]) is Object
                    && reply->Items_0[i]->Object_0.contains_key("error"@)
        },
{
    if let Json::Items(items) = reply {
        if is_hue_error(reply) {
            let i = choose|i: int| 0 <= i < items.len() && json_field(#[trigger] items[i], "error"@) is Some;
            assert(items[i] is Object && items[i]->Object_0.contains_key("error"@));
        }
        if exists|i: int|
            0 <= i < items.len() && (#[trigger] items[i]) is Object && items[i]->Object_0.contains_key("error"@) {
            let i = choose|i: int|
                0 <= i < items.len() && (#[trigger] items[i]) is Object && items[i]->Object_0.contains_key("error"@);
            assert(json_field(items[i], "error"@) is Some);
        }
    }
}

proof fn the_first_error_is_found(items: Seq<Json>, at: nat)
    requires
        at < items.len(),
        forall|i: int| 0 <= i < at ==> json_field(#[trigger] items[i], "error"@) is None,
        json_field(items[at as int], "error"@) is Some,
    ensures
        first_error(items) == json_field(items[at as int], "error"@),
    decreases at,
{
    if at > 0 {
        let rest = items.subrange(1, items.len() as int);
        assert(json_field(items[0], "error"@) is None);
        assert forall|i: int| 0 <= i < at - 1 implies json_field(#[trigger] rest[i], "error"@) is None by {
            assert(rest[i] == items[i + 1]);
        }
        the_first_error_is_found(rest, (at - 1) as nat);
    }
}

/// What went wrong is told by the whole `description` of the `error` of the first
/// item that has one, whatever comes behind it; where that is no text it is told
/// as unknown.
pub proof fn the_first_error_is_told_as_it_is(items: Seq<Json>, at: nat, description: Seq<char>)
    requires
        at < items.len(),
        forall|i: int|
            0 <= i < at ==> !((#[trigger] items[i]) is Object && items[i]->Object_0.contains_key("error"@)),
        items[at as int] is Object,
        items[at as int]->Object_0.contains_key("error"@),
    ensures
        ({
            let error = items[at as int]->Object_0["error"@];
            let described = error is Object && error->Object_0.contains_key("description"@)
                && error->Object_0["description"@] is Text;
            &&& described && error->Object_0["description"@] == Json::Text(description) ==> error_message(
                Json::Items(items),
            ) == description
            &&& !described ==> error_message(Json::Items(items)) == "unknown bridge error"@
        }),
{
    assert forall|i: int| 0 <= i < at implies json_field(#[trigger] items[i], "error"@) is None by {
        assert(!(items[i] is Object && items[i]->Object_0.contains_key("error"@)));
    }
    the_first_error_is_found(items, at);
}

/// A reply that has no error in it tells of an unknown one.
pub proof fn without_an_error_nothing_is_known(reply: Json)
    requires
        reply is Items ==> forall|i: int|
            0 <= i < reply->Items_0.len() ==> !((#[trigger] reply->Items_0[i]) is Object
                && reply->Items_0[i]->Object_0.contains_key("error"@)),
    ensures
        error_message(reply) == "unknown bridge error"@,
        !is_hue_error(reply),
{
    a_reply_tells_of_an_error_by_an_item(reply);
    a_reply_with_an_error_has_a_first_one(reply);
}

/// A failure is told in the words it is told in.
pub proof fn a_failure_is_told_as_it_is(text: String)
    ensures
        told(Err(text)) == Some(text@),
        told(Ok(())) is None,
{
}

/// What is asked of the bridge is what the environment sets: the address must be
/// there, and the device type, which has a default, must have a `#` in it and be
/// no longer than forty bytes. A missing address is told before a bad device
/// type.
pub proof fn a_request_is_what_the_environment_sets(env: Map<Seq<char>, Seq<char>>, device_type: Seq<char>)
    requires
        device_type == (if env.contains_key("HUE_DEVICE_TYPE"@) {
            env["HUE_DEVICE_TYPE"@]
        } else {
            "potato-hue#host"@
        }),
    ensures
        ({
            let addressed = env.contains_key("HUE_BRIDGE_IP"@) && !is_blank(env["HUE_BRIDGE_IP"@]);
            let fits = encode_utf8(device_type).len() <= 40 && exists|i: int|
                0 <= i < device_type.len() && device_type[i] == '#';
            match authorize_of(env) {
                Ok(request) => {
                    &&& addressed
                    &&& fits
                    &&& request.bridge_ip == env["HUE_BRIDGE_IP"@]
                    &&& request.device_type == device_type
                },
                Err(problem) => if addressed {
                    !fits && problem == Problem::BadDeviceType
                } else {
                    problem == Problem::Missing("HUE_BRIDGE_IP"@)
                },
            }
        }),
{
}

/// A request is seen with both of its parts.
pub proof fn a_request_is_seen_as_it_is(request: AuthorizeRequest)
    ensures
        request@.bridge_ip == request.bridge_ip@,
        request@.device_type == request.device_type@,
{
}

/// A reply is refused exactly where it tells of an error, in the given words and
/// then in those of the error, each whole.
pub proof fn an_error_is_told_behind_what_was_tried(words: Seq<char>, reply: Json)
    ensures
        refusal(words, reply) is Some <==> is_hue_error(reply),
        refusal(words, reply) matches Some(text) ==> {
            &&& text.len() == words.len() + error_message(reply).len()
            &&& text.subrange(0, words.len() as int) == words
            &&& text.subrange(words.len() as int, text.len() as int) == error_message(reply)
        },
{
    let text = words + error_message(reply);
    assert(text.subrange(0, words.len() as int) =~= words);
    assert(text.subrange(words.len() as int, text.len() as int) =~= error_message(reply));
}

/// A request is sent to the bridge at its whole address, and says the whole device
/// type and nothing else.
pub proof fn a_request_says_who_asks(request: AuthorizeRequest, key: Seq<char>)
    ensures
        ({
            let url = authorize_address(request@);
            let body = Json::Object(authorize_fields(request@));
            let ip_end = 7 + request.bridge_ip@.len() as int;
            &&& url.len() == ip_end + 4
            &&& url.subrange(0, 7) == "http://"@
            &&& url.subrange(7, ip_end) == request.bridge_ip@
            &&& url.subrange(ip_end, ip_end + 4) == "/api"@
            &&& json_field(body, "devicetype"@) == Some(Json::Text(request.device_type@))
            &&& key != "devicetype"@ ==> json_field(body, key) is None
        }),
{
    reveal_strlit("http://");
    reveal_strlit("/api");
    let url = authorize_address(request@);
    let ip_end = 7 + request.bridge_ip@.len() as int;
    assert(url.subrange(0, 7) =~= "http://"@);
    assert(url.subrange(7, ip_end) =~= request.bridge_ip@);
    assert(url.subrange(ip_end, ip_end + 4) =~= "/api"@);
}

} // verus!
