//! The descriptor module ("dscr"): the outside locations of the city and
//! the rooms each has.
use crate::modules::reply;
use crate::value::{lemma_seq_model, seq_model, str_value, vec_value, Object, SpecValue, Value};
use vstd::prelude::*;

verus! {

/// The descriptor module.
pub struct Descriptor {
    pub prefix: &'static str,
}

/// One room of a location: its id, whether it is for VIPs, its map, its
/// decoration, the minimal level and its background sound.
pub open spec fn room_model(id: Seq<char>, vip: bool, uc: Seq<char>, dc: Seq<char>, ml: i32, bgs: Seq<char>) -> SpecValue {
    SpecValue::Object(
        seq![
            ("id"@, SpecValue::Str(id)),
            ("vip"@, SpecValue::Boolean(vip)),
            ("uc"@, SpecValue::Str(uc)),
            ("dc"@, SpecValue::Str(dc)),
            ("ml"@, SpecValue::I32(ml)),
            ("bgs"@, SpecValue::Str(bgs)),
        ],
    )
}

/// An outside location of the street zone: its id, the room its door leads
/// to, the resources to load and its rooms.
pub open spec fn location_model(id: Seq<char>, drid: Seq<char>, ldc: Seq<char>, rooms: Seq<SpecValue>) -> SpecValue {
    SpecValue::Object(
        seq![
            ("id"@, SpecValue::Str(id)),
            ("zid"@, SpecValue::Str("street"@)),
            ("drid"@, SpecValue::Str(drid)),
            ("ldc"@, SpecValue::Str(ldc)),
            ("rms"@, SpecValue::Vector(rooms)),
        ],
    )
}

/// The "yard" location.
pub open spec fn yard_model() -> SpecValue {
    location_model(
        "yard"@,
        "y1"@,
        "yard,landscape"@,
        seq![
            room_model("y1"@, false, "yard_1_map"@, "outside"@, 0, "outside1"@),
            room_model("y1e"@, false, "yard_1_map"@, "outside"@, 0, "outside1"@),
        ],
    )
}

/// The "cafe" location.
pub open spec fn cafe_model() -> SpecValue {
    location_model(
        "cafe"@,
        "cf1"@,
        "cafe"@,
        seq![
            room_model("cf1"@, false, "cafe_1_map"@, "outside"@, 0, "cafe1"@),
            room_model("cf1e"@, false, "cafe_1_map"@, "outside"@, 0, "cafe1"@),
        ],
    )
}

/// The "club" location.
pub open spec fn club_model() -> SpecValue {
    location_model(
        "club"@,
        "cl1"@,
        "club,vip"@,
        seq![
            room_model("cl1"@, false, "club_1_map"@, "outside"@, 4, "club1"@),
            room_model("cl1e"@, false, "club_1_map"@, "outside"@, 4, "club1"@),
            room_model("v1"@, true, "vip1_map"@, "outside"@, 0, "vip1"@),
            room_model("v1e"@, true, "vip1_map"@, "outside"@, 0, "vip1"@),
        ],
    )
}

/// The "park" location.
pub open spec fn park_model() -> SpecValue {
    location_model(
        "park"@,
        "p1"@,
        "park,landscape"@,
        seq![
            room_model("p1"@, false, "park_1_map"@, "outside"@, 0, "outside1"@),
            room_model("p1e"@, false, "park_1_map"@, "outside"@, 0, "outside1"@),
        ],
    )
}

/// The "street" location.
pub open spec fn street_model() -> SpecValue {
    location_model(
        "street"@,
        "s1"@,
        "street,landscape"@,
        seq![
            room_model("s1"@, false, "street_1_map"@, "outside"@, 0, "outside1"@),
            room_model("s1e"@, false, "street_1_map"@, "outside"@, 0, "outside1"@),
        ],
    )
}

/// The "publicBeach" location.
pub open spec fn public_beach_model() -> SpecValue {
    location_model(
        "publicBeach"@,
        "pb1"@,
        "publicBeach"@,
        seq![
            room_model("pb1"@, false, "street_1_map"@, "outside"@, 0, "outside1"@),
            room_model("pb1e"@, false, "street_1_map"@, "outside"@, 0, "outside1"@),
        ],
    )
}

/// The "ballroom" location.
pub open spec fn ballroom_model() -> SpecValue {
    location_model(
        "ballroom"@,
        "br1"@,
        "ballroom"@,
        seq![
            room_model("br1"@, false, "street_1_map"@, "outside"@, 0, "outside1"@),
            room_model("br1e"@, false, "street_1_map"@, "outside"@, 0, "outside1"@),
        ],
    )
}

/// The "canyon" location.
pub open spec fn canyon_model() -> SpecValue {
    location_model(
        "canyon"@,
        "pc1"@,
        "canyon"@,
        seq![
            room_model("pc1"@, false, "canyon_1_map"@, "outside"@, 0, "outside1"@),
        ],
    )
}

/// The "salon" location.
pub open spec fn salon_model() -> SpecValue {
    location_model(
        "salon"@,
        "sn1"@,
        "salon"@,
        seq![
            room_model("br1"@, false, "salon_1_map"@, "outside"@, 6, "cafe1"@),
        ],
    )
}

/// The "couturier" location.
pub open spec fn couturier_model() -> SpecValue {
    location_model(
        "couturier"@,
        "ctr1"@,
        "couturier"@,
        seq![
            room_model("ctr1"@, false, "street_1_map"@, "outside"@, 0, "outside1"@),
        ],
    )
}

/// The "skiResort" location.
pub open spec fn ski_resort_model() -> SpecValue {
    location_model(
        "skiResort"@,
        "sr1"@,
        "skiResort"@,
        seq![
            room_model("sr1"@, false, "ski_resort_1_map"@, "outside"@, 0, "skiResort"@),
            room_model("sr1e"@, false, "ski_resort_1_map"@, "outside"@, 0, "skiResort"@),
        ],
    )
}

/// The "weddingBeach" location.
pub open spec fn wedding_beach_model() -> SpecValue {
    location_model(
        "weddingBeach"@,
        "wb1e"@,
        "weddingBeach"@,
        seq![
            room_model("wb1e"@, false, "wedding_beach_1_map"@, "beach"@, 0, "outside1"@),
        ],
    )
}

/// The "iceRink" location.
pub open spec fn ice_rink_model() -> SpecValue {
    location_model(
        "iceRink"@,
        "ir1"@,
        "iceRink"@,
        seq![
            room_model("ir1"@, false, "iceRink_1_map"@, "outside"@, 15, "outside1"@),
        ],
    )
}

/// The "podium" location.
pub open spec fn podium_model() -> SpecValue {
    location_model(
        "podium"@,
        "pdm"@,
        "podium,iceRink"@,
        seq![
            room_model("pdm"@, false, "podium_1_map"@, "beach"@, 15, "Podium1"@),
        ],
    )
}

/// The outside locations, in the order the client receives them.
pub open spec fn locations_model() -> Seq<SpecValue> {
    seq![
        yard_model(),
        cafe_model(),
        club_model(),
        park_model(),
        street_model(),
        public_beach_model(),
        ballroom_model(),
        canyon_model(),
        salon_model(),
        couturier_model(),
        ski_resort_model(),
        wedding_beach_model(),
        ice_rink_model(),
        podium_model(),
    ]
}

fn room(id: &str, vip: bool, uc: &str, dc: &str, ml: i32, bgs: &str) -> (r: Value)
    ensures
        r@ == room_model(id@, vip, uc@, dc@, ml, bgs@),
{
    let mut out = Object::new();
    out.push_entry("id", str_value(id));
    out.push_entry("vip", Value::Boolean(vip));
    out.push_entry("uc", str_value(uc));
    out.push_entry("dc", str_value(dc));
    out.push_entry("ml", Value::I32(ml));
    out.push_entry("bgs", str_value(bgs));
    assert(out@ =~= room_model(id@, vip, uc@, dc@, ml, bgs@)->Object_0);
    Value::Object(out)
}

fn location(id: &str, drid: &str, ldc: &str, rooms: Vec<Value>) -> (r: Value)
    ensures
        r@ == location_model(id@, drid@, ldc@, seq_model(rooms@)),
{
    let ghost m = seq_model(rooms@);
    let mut out = Object::new();
    out.push_entry("id", str_value(id));
    out.push_entry("zid", str_value("street"));
    out.push_entry("drid", str_value(drid));
    out.push_entry("ldc", str_value(ldc));
    out.push_entry("rms", vec_value(rooms));
    assert(out@ =~= location_model(id@, drid@, ldc@, m)->Object_0);
    Value::Object(out)
}

impl Descriptor {
    pub fn new() -> (r: Descriptor)
        ensures
            r.prefix@ == "dscr"@,
    {
        Descriptor { prefix: "dscr" }
    }

    /// Whether the second piece of a command name asks for the locations ("init").
    pub fn is_init(&self, segment: &str) -> (r: bool)
        ensures
            r == (segment@ == "init"@),
    {
        segment.to_owned() == "init".to_owned()
    }

    /// The answer to "init": "dscr.ldd" with all outside locations.
    pub fn init(&self) -> (r: Vec<Value>)
        ensures
            seq_model(r@) == seq![
                SpecValue::Str("dscr.ldd"@),
                SpecValue::Object(
                    seq![
                        ("init"@, SpecValue::Boolean(true)),
                        ("outsideLocations"@, SpecValue::Vector(locations_model())),
                    ],
                ),
            ],
    {
        let mut locations: Vec<Value> = Vec::new();
        locations.push(self.yard());
        locations.push(self.cafe());
        locations.push(self.club());
        locations.push(self.park());
        locations.push(self.street());
        locations.push(self.public_beach());
        locations.push(self.ballroom());
        locations.push(self.canyon());
        locations.push(self.salon());
        locations.push(self.couturier());
        locations.push(self.ski_resort());
        locations.push(self.wedding_beach());
        locations.push(self.ice_rink());
        locations.push(self.podium());
        proof {
            lemma_seq_model(locations@);
            assert(seq_model(locations@) =~= locations_model());
        }
        let mut data = Object::new();
        data.push_entry("init", Value::Boolean(true));
        data.push_entry("outsideLocations", vec_value(locations));
        assert(data@ =~= seq![
            ("init"@, SpecValue::Boolean(true)),
            ("outsideLocations"@, SpecValue::Vector(locations_model())),
        ]);
        reply("dscr.ldd", data)
    }

    /// The "yard" location (see [`yard_model`]).
    pub fn yard(&self) -> (r: Value)
        ensures
            r@ == yard_model(),
    {
        let mut rooms: Vec<Value> = Vec::new();
        rooms.push(room("y1", false, "yard_1_map", "outside", 0, "outside1"));
        rooms.push(room("y1e", false, "yard_1_map", "outside", 0, "outside1"));
        proof {
            lemma_seq_model(rooms@);
            assert(seq_model(rooms@) =~= seq![
                room_model("y1"@, false, "yard_1_map"@, "outside"@, 0, "outside1"@),
                room_model("y1e"@, false, "yard_1_map"@, "outside"@, 0, "outside1"@),
            ]);
        }
        location("yard", "y1", "yard,landscape", rooms)
    }

    /// The "cafe" location (see [`cafe_model`]).
    pub fn cafe(&self) -> (r: Value)
        ensures
            r@ == cafe_model(),
    {
        let mut rooms: Vec<Value> = Vec::new();
        rooms.push(room("cf1", false, "cafe_1_map", "outside", 0, "cafe1"));
        rooms.push(room("cf1e", false, "cafe_1_map", "outside", 0, "cafe1"));
        proof {
            lemma_seq_model(rooms@);
            assert(seq_model(rooms@) =~= seq![
                room_model("cf1"@, false, "cafe_1_map"@, "outside"@, 0, "cafe1"@),
                room_model("cf1e"@, false, "cafe_1_map"@, "outside"@, 0, "cafe1"@),
            ]);
        }
        location("cafe", "cf1", "cafe", rooms)
    }

    /// The "club" location (see [`club_model`]).
    pub fn club(&self) -> (r: Value)
        ensures
            r@ == club_model(),
    {
        let mut rooms: Vec<Value> = Vec::new();
        rooms.push(room("cl1", false, "club_1_map", "outside", 4, "club1"));
        rooms.push(room("cl1e", false, "club_1_map", "outside", 4, "club1"));
        rooms.push(room("v1", true, "vip1_map", "outside", 0, "vip1"));
        rooms.push(room("v1e", true, "vip1_map", "outside", 0, "vip1"));
        proof {
            lemma_seq_model(rooms@);
            assert(seq_model(rooms@) =~= seq![
                room_model("cl1"@, false, "club_1_map"@, "outside"@, 4, "club1"@),
                room_model("cl1e"@, false, "club_1_map"@, "outside"@, 4, "club1"@),
                room_model("v1"@, true, "vip1_map"@, "outside"@, 0, "vip1"@),
                room_model("v1e"@, true, "vip1_map"@, "outside"@, 0, "vip1"@),
            ]);
        }
        location("club", "cl1", "club,vip", rooms)
    }

    /// The "park" location (see [`park_model`]).
    pub fn park(&self) -> (r: Value)
        ensures
            r@ == park_model(),
    {
        let mut rooms: Vec<Value> = Vec::new();
        rooms.push(room("p1", false, "park_1_map", "outside", 0, "outside1"));
        rooms.push(room("p1e", false, "park_1_map", "outside", 0, "outside1"));
        proof {
            lemma_seq_model(rooms@);
            assert(seq_model(rooms@) =~= seq![
                room_model("p1"@, false, "park_1_map"@, "outside"@, 0, "outside1"@),
                room_model("p1e"@, false, "park_1_map"@, "outside"@, 0, "outside1"@),
            ]);
        }
        location("park", "p1", "park,landscape", rooms)
    }

    /// The "street" location (see [`street_model`]).
    pub fn street(&self) -> (r: Value)
        ensures
            r@ == street_model(),
    {
        let mut rooms: Vec<Value> = Vec::new();
        rooms.push(room("s1", false, "street_1_map", "outside", 0, "outside1"));
        rooms.push(room("s1e", false, "street_1_map", "outside", 0, "outside1"));
        proof {
            lemma_seq_model(rooms@);
            assert(seq_model(rooms@) =~= seq![
                room_model("s1"@, false, "street_1_map"@, "outside"@, 0, "outside1"@),
                room_model("s1e"@, false, "street_1_map"@, "outside"@, 0, "outside1"@),
            ]);
        }
        location("street", "s1", "street,landscape", rooms)
    }

    /// The "publicBeach" location (see [`public_beach_model`]).
    pub fn public_beach(&self) -> (r: Value)
        ensures
            r@ == public_beach_model(),
    {
        let mut rooms: Vec<Value> = Vec::new();
        rooms.push(room("pb1", false, "street_1_map", "outside", 0, "outside1"));
        rooms.push(room("pb1e", false, "street_1_map", "outside", 0, "outside1"));
        proof {
            lemma_seq_model(rooms@);
            assert(seq_model(rooms@) =~= seq![
                room_model("pb1"@, false, "street_1_map"@, "outside"@, 0, "outside1"@),
                room_model("pb1e"@, false, "street_1_map"@, "outside"@, 0, "outside1"@),
            ]);
        }
        location("publicBeach", "pb1", "publicBeach", rooms)
    }

    /// The "ballroom" location (see [`ballroom_model`]).
    pub fn ballroom(&self) -> (r: Value)
        ensures
            r@ == ballroom_model(),
    {
        let mut rooms: Vec<Value> = Vec::new();
        rooms.push(room("br1", false, "street_1_map", "outside", 0, "outside1"));
        rooms.push(room("br1e", false, "street_1_map", "outside", 0, "outside1"));
        proof {
            lemma_seq_model(rooms@);
            assert(seq_model(rooms@) =~= seq![
                room_model("br1"@, false, "street_1_map"@, "outside"@, 0, "outside1"@),
                room_model("br1e"@, false, "street_1_map"@, "outside"@, 0, "outside1"@),
            ]);
        }
        location("ballroom", "br1", "ballroom", rooms)
    }

    /// The "canyon" location (see [`canyon_model`]).
    pub fn canyon(&self) -> (r: Value)
        ensures
            r@ == canyon_model(),
    {
        let mut rooms: Vec<Value> = Vec::new();
        rooms.push(room("pc1", false, "canyon_1_map", "outside", 0, "outside1"));
        proof {
            lemma_seq_model(rooms@);
            assert(seq_model(rooms@) =~= seq![
                room_model("pc1"@, false, "canyon_1_map"@, "outside"@, 0, "outside1"@),
            ]);
        }
        location("canyon", "pc1", "canyon", rooms)
    }

    /// The "salon" location (see [`salon_model`]).
    pub fn salon(&self) -> (r: Value)
        ensures
            r@ == salon_model(),
    {
        let mut rooms: Vec<Value> = Vec::new();
        rooms.push(room("br1", false, "salon_1_map", "outside", 6, "cafe1"));
        proof {
            lemma_seq_model(rooms@);
            assert(seq_model(rooms@) =~= seq![
                room_model("br1"@, false, "salon_1_map"@, "outside"@, 6, "cafe1"@),
            ]);
        }
        location("salon", "sn1", "salon", rooms)
    }

    /// The "couturier" location (see [`couturier_model`]).
    pub fn couturier(&self) -> (r: Value)
        ensures
            r@ == couturier_model(),
    {
        let mut rooms: Vec<Value> = Vec::new();
        rooms.push(room("ctr1", false, "street_1_map", "outside", 0, "outside1"));
        proof {
            lemma_seq_model(rooms@);
            assert(seq_model(rooms@) =~= seq![
                room_model("ctr1"@, false, "street_1_map"@, "outside"@, 0, "outside1"@),
            ]);
        }
        location("couturier", "ctr1", "couturier", rooms)
    }

    /// The "skiResort" location (see [`ski_resort_model`]).
    pub fn ski_resort(&self) -> (r: Value)
        ensures
            r@ == ski_resort_model(),
    {
        let mut rooms: Vec<Value> = Vec::new();
        rooms.push(room("sr1", false, "ski_resort_1_map", "outside", 0, "skiResort"));
        rooms.push(room("sr1e", false, "ski_resort_1_map", "outside", 0, "skiResort"));
        proof {
            lemma_seq_model(rooms@);
            assert(seq_model(rooms@) =~= seq![
                room_model("sr1"@, false, "ski_resort_1_map"@, "outside"@, 0, "skiResort"@),
                room_model("sr1e"@, false, "ski_resort_1_map"@, "outside"@, 0, "skiResort"@),
            ]);
        }
        location("skiResort", "sr1", "skiResort", rooms)
    }

    /// The "weddingBeach" location (see [`wedding_beach_model`]).
    pub fn wedding_beach(&self) -> (r: Value)
        ensures
            r@ == wedding_beach_model(),
    {
        let mut rooms: Vec<Value> = Vec::new();
        rooms.push(room("wb1e", false, "wedding_beach_1_map", "beach", 0, "outside1"));
        proof {
            lemma_seq_model(rooms@);
            assert(seq_model(rooms@) =~= seq![
                room_model("wb1e"@, false, "wedding_beach_1_map"@, "beach"@, 0, "outside1"@),
            ]);
        }
        location("weddingBeach", "wb1e", "weddingBeach", rooms)
    }

    /// The "iceRink" location (see [`ice_rink_model`]).
    pub fn ice_rink(&self) -> (r: Value)
        ensures
            r@ == ice_rink_model(),
    {
        let mut rooms: Vec<Value> = Vec::new();
        rooms.push(room("ir1", false, "iceRink_1_map", "outside", 15, "outside1"));
        proof {
            lemma_seq_model(rooms@);
            assert(seq_model(rooms@) =~= seq![
                room_model("ir1"@, false, "iceRink_1_map"@, "outside"@, 15, "outside1"@),
            ]);
        }
        location("iceRink", "ir1", "iceRink", rooms)
    }

    /// The "podium" location (see [`podium_model`]).
    pub fn podium(&self) -> (r: Value)
        ensures
            r@ == podium_model(),
    {
        let mut rooms: Vec<Value> = Vec::new();
        rooms.push(room("pdm", false, "podium_1_map", "beach", 15, "Podium1"));
        proof {
            lemma_seq_model(rooms@);
            assert(seq_model(rooms@) =~= seq![
                room_model("pdm"@, false, "podium_1_map"@, "beach"@, 15, "Podium1"@),
            ]);
        }
        location("podium", "pdm", "podium,iceRink", rooms)
    }
}

} // verus!
