//! The avatar module ("a"): saving an appearance, and the clothes a new
//! avatar starts with.
use crate::modules::{object_field, reply, strings_view, as_object, MISSING_FIELD};
use crate::value::{lemma_seq_model, seq_model, Object, SpecValue, Value};
use vstd::prelude::*;

verus! {

/// The avatar module.
pub struct Avatar {
    pub prefix: &'static str,
}

/// What an avatar command asks for.
pub enum AvatarCommand {
    /// "apprnc": something about the appearance.
    Appearance,
}

/// What an appearance command asks for.
pub enum AppearanceCommand {
    /// "save": store the appearance sent.
    Save,
}

/// The collection of clothes a new avatar wears.
pub const STARTER_COLLECTION: &'static str = "casual";

/// The clothes a new avatar gets: some it only owns, some it also wears.
pub struct StarterClothes {
    pub owned: Vec<String>,
    pub worn: Vec<String>,
}

/// The clothes of a new avatar by gender: 1 for a boy, 2 for a girl; there
/// are none for any other gender, which the server does not survive.
pub open spec fn starter_clothes_spec(gender: i32) -> Option<(Seq<Seq<char>>, Seq<Seq<char>>)> {
    if gender == 1 {
        Some((seq!["boyUnderdress1"@], seq!["boyShoes8"@, "boyPants10"@, "boyShirt14"@]))
    } else if gender == 2 {
        Some(
            (
                seq!["girlUnderdress1"@, "girlUnderdress2"@],
                seq!["girlShoes14"@, "girlPants9"@, "girlShirt12"@],
            ),
        )
    } else {
        None
    }
}

/// The appearance in the data of a save command: "apprnc", an object;
/// `None` where the data or the appearance is missing or of the wrong kind,
/// which the server does not survive.
pub open spec fn appearance_request_spec(m: Seq<SpecValue>) -> Option<Seq<(Seq<char>, SpecValue)>> {
    match as_object(m[2]) {
        Ok(data) => match object_field(data, "apprnc"@, MISSING_FIELD) {
            Ok(a) => Some(a),
            Err(_) => None,
        },
        Err(_) => None,
    }
}

impl Avatar {
    pub fn new() -> (r: Avatar)
        ensures
            r.prefix@ == "a"@,
    {
        Avatar { prefix: "a" }
    }

    /// The command named by the second piece of a command name.
    pub fn command(&self, segment: &str) -> (r: Option<AvatarCommand>)
        ensures
            r is Some <==> segment@ == "apprnc"@,
    {
        if segment.to_owned() == "apprnc".to_owned() {
            Some(AvatarCommand::Appearance)
        } else {
            None
        }
    }

    /// The appearance command named by the third piece of a command name.
    pub fn appearance_command(&self, segment: &str) -> (r: Option<AppearanceCommand>)
        ensures
            r is Some <==> segment@ == "save"@,
    {
        if segment.to_owned() == "save".to_owned() {
            Some(AppearanceCommand::Save)
        } else {
            None
        }
    }

    /// The appearance sent with a save command (see [`appearance_request_spec`]).
    pub fn appearance_request<'a>(&self, msg: &'a Vec<Value>) -> (r: Option<&'a Object>)
        requires
            msg@.len() > 2,
        ensures
            match appearance_request_spec(seq_model(msg@)) {
                Some(a) => r matches Some(o) && o@ == a,
                None => r is None,
            },
    {
        proof {
            lemma_seq_model(msg@);
        }
        let data = match msg[2].get_object() {
            Ok(d) => d,
            Err(_) => {
                return None;
            },
        };
        match data.get("apprnc") {
            Some(v) => match v.get_object() {
                Ok(a) => Some(a),
                Err(_) => None,
            },
            None => None,
        }
    }

    /// The clothes of a new avatar (see [`starter_clothes_spec`]).
    pub fn starter_clothes(&self, gender: i32) -> (r: Option<StarterClothes>)
        ensures
            match starter_clothes_spec(gender) {
                Some((owned, worn)) => r matches Some(c) && strings_view(c.owned@) == owned
                    && strings_view(c.worn@) == worn,
                None => r is None,
            },
    {
        if gender == 1 {
            let owned = vec!["boyUnderdress1".to_owned()];
            let worn = vec!["boyShoes8".to_owned(), "boyPants10".to_owned(), "boyShirt14".to_owned()];
            assert(strings_view(owned@) =~= seq!["boyUnderdress1"@]);
            assert(strings_view(worn@) =~= seq!["boyShoes8"@, "boyPants10"@, "boyShirt14"@]);
            Some(StarterClothes { owned, worn })
        } else if gender == 2 {
            let owned = vec!["girlUnderdress1".to_owned(), "girlUnderdress2".to_owned()];
            let worn = vec!["girlShoes14".to_owned(), "girlPants9".to_owned(), "girlShirt12".to_owned()];
            assert(strings_view(owned@) =~= seq!["girlUnderdress1"@, "girlUnderdress2"@]);
            assert(strings_view(worn@) =~= seq!["girlShoes14"@, "girlPants9"@, "girlShirt12"@]);
            Some(StarterClothes { owned, worn })
        } else {
            None
        }
    }

    /// The reply to a save: "a.apprnc.save" with the appearance now stored.
    pub fn saved_reply(&self, apprnc: Object) -> (r: Vec<Value>)
        ensures
            seq_model(r@) == seq![
                SpecValue::Str("a.apprnc.save"@),
                SpecValue::Object(seq![("apprnc"@, SpecValue::Object(apprnc@))]),
            ],
    {
        let ghost a = apprnc@;
        let mut data = Object::new();
        data.push_entry("apprnc", Value::Object(apprnc));
        assert(data@ =~= seq![("apprnc"@, SpecValue::Object(a))]);
        reply("a.apprnc.save", data)
    }
}

} // verus!
