//! The component module ("cp"): chat messages and moderation requests.
use crate::modules::location::{uids_view, Broadcast};
use crate::modules::{
    as_object,
    field,
    get_field,
    get_object_field,
    get_str_field,
    object_field,
    reply,
    request_data,
    str_field,
    MISSING_FIELD,
};
use crate::value::{lemma_seq_model, seq_model, str_value, Object, SpecValue, Value};
use crate::world::{members, World};
use vstd::prelude::*;

verus! {

/// The component module.
pub struct Component {
    pub prefix: &'static str,
}

/// What a component command asks for.
pub enum ComponentCommand {
    /// "cht": something about the chat.
    Chat,
    /// "m": something about moderation.
    Moderation,
}

/// The component command named by the second piece of a command name.
pub open spec fn component_command_spec(segment: Seq<char>) -> Option<ComponentCommand> {
    if segment == "cht"@ {
        Some(ComponentCommand::Chat)
    } else if segment == "m"@ {
        Some(ComponentCommand::Moderation)
    } else {
        None
    }
}

/// The room and sender of a chat message of `uid`, and whether `uid` sent
/// it: the data holds the message under "msg", whose "sid" is the sender,
/// and the room under "rid".
pub open spec fn chat_spec(m: Seq<SpecValue>, uid: Seq<char>) -> Result<Option<Seq<char>>, &'static str> {
    match as_object(m[2]) {
        Err(e) => Err(e),
        Ok(data) => match object_field(data, "msg"@, MISSING_FIELD) {
            Err(e) => Err(e),
            Ok(sent) => match str_field(sent, "sid"@, MISSING_FIELD) {
                Err(e) => Err(e),
                Ok(sid) => if sid != uid {
                    Ok(None)
                } else {
                    match str_field(data, "rid"@, MISSING_FIELD) {
                        Err(e) => Err(e),
                        Ok(room) => Ok(Some(room)),
                    }
                },
            },
        },
    }
}

impl Component {
    pub fn new() -> (r: Component)
        ensures
            r.prefix@ == "cp"@,
    {
        Component { prefix: "cp" }
    }

    /// The command named by the second piece of a command name.
    pub fn command(&self, segment: &str) -> (r: Option<ComponentCommand>)
        ensures
            r == component_command_spec(segment@),
    {
        let s = segment.to_owned();
        if s == "cht".to_owned() {
            Some(ComponentCommand::Chat)
        } else if s == "m".to_owned() {
            Some(ComponentCommand::Moderation)
        } else {
            None
        }
    }

    /// Whether the third piece of a chat command names sending a message ("sm").
    pub fn is_send_message(&self, segment: &str) -> (r: bool)
        ensures
            r == (segment@ == "sm"@),
    {
        segment.to_owned() == "sm".to_owned()
    }

    /// Whether the third piece of a moderation command names an access request ("ar").
    pub fn is_access_request(&self, segment: &str) -> (r: bool)
        ensures
            r == (segment@ == "ar"@),
    {
        segment.to_owned() == "ar".to_owned()
    }

    /// A chat message of `uid`: "cp.cht.sm" with the data of the command,
    /// for the other players in the room it names. A message whose sender
    /// is not `uid` goes nowhere (`None`).
    pub fn send_message(&self, world: &World, uid: &str, msg: &Vec<Value>) -> (r: Result<Option<Broadcast>, &'static str>)
        requires
            msg@.len() > 2,
        ensures
            match chat_spec(seq_model(msg@), uid@) {
                Err(e) => r == Err::<Option<Broadcast>, &'static str>(e),
                Ok(None) => r matches Ok(None),
                Ok(Some(room)) => r matches Ok(Some(b)) && seq_model(b.message@) == seq![
                    SpecValue::Str("cp.cht.sm"@),
                    seq_model(msg@)[2],
                ] && uids_view(b.recipients@) == members(world.players@, room, Some(uid@)),
            },
    {
        proof {
            lemma_seq_model(msg@);
        }
        let data = request_data(msg)?;
        let sent = get_object_field(data, "msg", MISSING_FIELD)?;
        let sid = get_str_field(sent, "sid", MISSING_FIELD)?;
        if sid != uid.to_owned() {
            return Ok(None);
        }
        let room = get_str_field(data, "rid", MISSING_FIELD)?;
        let mut message: Vec<Value> = Vec::new();
        message.push(str_value("cp.cht.sm"));
        message.push(msg[2].copy());
        proof {
            lemma_seq_model(message@);
            assert(seq_model(message@) =~= seq![SpecValue::Str("cp.cht.sm"@), seq_model(msg@)[2]]);
        }
        let recipients = world.members(room.as_str(), Some(uid));
        assert(uids_view(recipients@) =~= members(world.players@, room@, Some(uid@)));
        Ok(Some(Broadcast { message, recipients }))
    }

    /// The answer to an access request: "cp.m.ar" granting the privilege
    /// asked for ("pvlg" in the data).
    pub fn access_request(&self, msg: &Vec<Value>) -> (r: Result<Vec<Value>, &'static str>)
        requires
            msg@.len() > 2,
        ensures
            match as_object(seq_model(msg@)[2]) {
                Err(e) => r == Err::<Vec<Value>, &'static str>(e),
                Ok(data) => match field(data, "pvlg"@, MISSING_FIELD) {
                    Err(e) => r == Err::<Vec<Value>, &'static str>(e),
                    Ok(p) => r matches Ok(v) && seq_model(v@) == seq![
                        SpecValue::Str("cp.m.ar"@),
                        SpecValue::Object(seq![("pvlg"@, p), ("sccss"@, SpecValue::Boolean(true))]),
                    ],
                },
            },
    {
        let data = request_data(msg)?;
        let pvlg = get_field(data, "pvlg", MISSING_FIELD)?;
        let ghost p = pvlg@;
        let mut out = Object::new();
        out.push_entry("pvlg", pvlg.copy());
        out.push_entry("sccss", Value::Boolean(true));
        assert(out@ =~= seq![("pvlg"@, p), ("sccss"@, SpecValue::Boolean(true))]);
        Ok(reply("cp.m.ar", out))
    }
}

} // verus!
