//! The server's state: the game modules by prefix, and the players online.
use crate::modules::avatar::Avatar;
use crate::modules::billing::Billing;
use crate::modules::chat_decor::ChatDecor;
use crate::modules::component::Component;
use crate::modules::descriptor::Descriptor;
use crate::modules::furniture::Furniture;
use crate::modules::house::House;
use crate::modules::outside::Outside;
use crate::modules::passport::Passport;
use crate::modules::player::Player;
use crate::world::World;
use vstd::prelude::*;

verus! {

/// A game module.
pub enum Module {
    House(House),
    Avatar(Avatar),
    Billing(Billing),
    Outside(Outside),
    Component(Component),
    Descriptor(Descriptor),
    Furniture(Furniture),
    Passport(Passport),
    Player(Player),
    ChatDecor(ChatDecor),
}

impl Module {
    /// The prefix of the commands the module handles.
    pub open spec fn prefix_of(&self) -> Seq<char> {
        match self {
            Module::House(m) => m.prefix@,
            Module::Avatar(m) => m.prefix@,
            Module::Billing(m) => m.prefix@,
            Module::Outside(m) => m.prefix@,
            Module::Component(m) => m.prefix@,
            Module::Descriptor(m) => m.prefix@,
            Module::Furniture(m) => m.prefix@,
            Module::Passport(m) => m.prefix@,
            Module::Player(m) => m.prefix@,
            Module::ChatDecor(m) => m.prefix@,
        }
    }

    /// The prefix of the commands the module handles.
    pub fn prefix(&self) -> (r: &'static str)
        ensures
            r@ == self.prefix_of(),
    {
        match self {
            Module::House(m) => m.prefix,
            Module::Avatar(m) => m.prefix,
            Module::Billing(m) => m.prefix,
            Module::Outside(m) => m.prefix,
            Module::Component(m) => m.prefix,
            Module::Descriptor(m) => m.prefix,
            Module::Furniture(m) => m.prefix,
            Module::Passport(m) => m.prefix,
            Module::Player(m) => m.prefix,
            Module::ChatDecor(m) => m.prefix,
        }
    }
}

/// The prefixes of the registered modules, in the order they are registered.
pub open spec fn registered_prefixes() -> Seq<Seq<char>> {
    seq!["h"@, "a"@, "b"@, "o"@, "cp"@, "dscr"@, "frn"@, "psp"@, "pl"@, "chtdc"@]
}

/// The position of the first module registered under `prefix`.
pub open spec fn module_index(modules: Seq<(String, Module)>, prefix: Seq<char>) -> Option<int>
    decreases modules.len(),
{
    if modules.len() == 0 {
        None
    } else {
        match module_index(modules.drop_last(), prefix) {
            Some(i) => Some(i),
            None => if modules.last().0@ == prefix {
                Some(modules.len() - 1)
            } else {
                None
            },
        }
    }
}

proof fn lemma_module_index(modules: Seq<(String, Module)>, prefix: Seq<char>)
    ensures
        match module_index(modules, prefix) {
            Some(i) => 0 <= i < modules.len() && modules[i].0@ == prefix && forall|j: int|
                0 <= j < i ==> modules[j].0@ != prefix,
            None => forall|j: int| 0 <= j < modules.len() ==> modules[j].0@ != prefix,
        },
    decreases modules.len(),
{
    if modules.len() > 0 {
        lemma_module_index(modules.drop_last(), prefix);
        assert(forall|j: int| 0 <= j < modules.len() - 1 ==> modules.drop_last()[j] == modules[j]);
    }
}

/// The server: the modules by prefix, and the players online.
pub struct Server {
    pub modules: Vec<(String, Module)>,
    pub player_data: World,
}

impl Server {
    /// A server with every game module registered under its prefix and no
    /// player online.
    pub fn new() -> (r: Server)
        ensures
            r.modules@.len() == registered_prefixes().len(),
            forall|i: int|
                0 <= i < r.modules@.len() ==> #[trigger] r.modules@[i].0@ == registered_prefixes()[i]
                    && r.modules@[i].1.prefix_of() == registered_prefixes()[i],
            r.modules@[0].1 is House,
            r.modules@[1].1 is Avatar,
            r.modules@[2].1 is Billing,
            r.modules@[3].1 is Outside,
            r.modules@[4].1 is Component,
            r.modules@[5].1 is Descriptor,
            r.modules@[6].1 is Furniture,
            r.modules@[7].1 is Passport,
            r.modules@[8].1 is Player,
            r.modules@[9].1 is ChatDecor,
            r.player_data.players@.len() == 0,
    {
        let mut modules: Vec<(String, Module)> = Vec::new();
        let module = House::new();
        modules.push((module.prefix.to_owned(), Module::House(module)));
        let module = Avatar::new();
        modules.push((module.prefix.to_owned(), Module::Avatar(module)));
        let module = Billing::new();
        modules.push((module.prefix.to_owned(), Module::Billing(module)));
        let module = Outside::new();
        modules.push((module.prefix.to_owned(), Module::Outside(module)));
        let module = Component::new();
        modules.push((module.prefix.to_owned(), Module::Component(module)));
        let module = Descriptor::new();
        modules.push((module.prefix.to_owned(), Module::Descriptor(module)));
        let module = Furniture::new();
        modules.push((module.prefix.to_owned(), Module::Furniture(module)));
        let module = Passport::new();
        modules.push((module.prefix.to_owned(), Module::Passport(module)));
        let module = Player::new();
        modules.push((module.prefix.to_owned(), Module::Player(module)));
        let module = ChatDecor::new();
        modules.push((module.prefix.to_owned(), Module::ChatDecor(module)));
        Server { modules, player_data: World::new() }
    }

    /// The module registered under `prefix`, if any.
    pub fn module(&self, prefix: &str) -> (r: Option<&Module>)
        ensures
            match module_index(self.modules@, prefix@) {
                Some(i) => r == Some(&self.modules@[i].1),
                None => r is None,
            },
    {
        proof {
            lemma_module_index(self.modules@, prefix@);
        }
        let key = prefix.to_owned();
        let n = self.modules.len();
        let mut i: usize = 0;
        while i < n
            invariant
                n == self.modules@.len(),
                0 <= i <= n,
                key@ == prefix@,
                forall|j: int| 0 <= j < i ==> self.modules@[j].0@ != prefix@,
                match module_index(self.modules@, prefix@) {
                    Some(x) => 0 <= x < n && self.modules@[x].0@ == prefix@ && forall|j: int|
                        0 <= j < x ==> self.modules@[j].0@ != prefix@,
                    None => forall|j: int| 0 <= j < n ==> self.modules@[j].0@ != prefix@,
                },
            decreases n - i,
        {
            if self.modules[i].0 == key {
                return Some(&self.modules[i].1);
            }
            i = i + 1;
        }
        None
    }
}

} // verus!
