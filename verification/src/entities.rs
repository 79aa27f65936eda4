//! Creatures and items: the gameplay values that move over a finished map.

use vstd::prelude::*;

use crate::geometry::Coords;

verus! {

/// Something that can stand on the map, hold hit points, and trade damage.
pub trait Creature: Sized {
    /// Where the creature stands.
    spec fn spec_pos(&self) -> Coords;

    /// Its current hit points.
    spec fn spec_hp(&self) -> int;

    /// How much damage one of its attacks deals.
    spec fn spec_attack(&self) -> int;

    fn pos(&self) -> (r: Coords)
        ensures
            r == self.spec_pos(),
    ;

    fn tile_name(&self) -> &'static str;

    /// Subtracts `dmg` hit points; a negative `dmg` heals.
    fn take_damage(&mut self, dmg: i32)
        requires
            i32::MIN <= old(self).spec_hp() - dmg <= i32::MAX,
        ensures
            final(self).spec_hp() == old(self).spec_hp() - dmg,
            final(self).spec_pos() == old(self).spec_pos(),
            final(self).spec_attack() == old(self).spec_attack(),
    ;

    /// How much damage one of its attacks deals, as a value.
    fn attack(&self) -> (r: i32)
        ensures
            r as int == self.spec_attack(),
    ;

    fn is_dead(&self) -> (r: bool)
        ensures
            r == (self.spec_hp() <= 0),
    ;

    fn hp(&self) -> (r: i32)
        ensures
            r as int == self.spec_hp(),
    ;
}

/// Deals one of the attacker's attacks to the target.
pub fn deal_damage<A: Creature, C: Creature>(attacker: &A, target: &mut C)
    requires
        i32::MIN <= old(target).spec_hp() - attacker.spec_attack() <= i32::MAX,
    ensures
        final(target).spec_hp() == old(target).spec_hp() - attacker.spec_attack(),
        final(target).spec_pos() == old(target).spec_pos(),
        final(target).spec_attack() == old(target).spec_attack(),
{
    let dmg = attacker.attack();
    target.take_damage(dmg);
}

/// Something a creature can carry and consume.
pub trait Item: Sized {
    /// How many hit points consuming the item restores.
    spec fn spec_heal(&self) -> int;

    fn id(&self) -> (r: u32);

    fn tile_name(&self) -> &'static str;

    /// Restores this item's healing amount to the creature.
    fn consume<C: Creature>(&mut self, creature: &mut C)
        requires
            i32::MIN <= old(creature).spec_hp() + old(self).spec_heal() <= i32::MAX,
        ensures
            final(creature).spec_hp() == old(creature).spec_hp() + old(self).spec_heal(),
            final(creature).spec_pos() == old(creature).spec_pos(),
    ;
}

/// The player: position, an inventory of potions, and hit points.
pub struct Player {
    pub pos: Coords,
    pub inv: Vec<HealingPotion>,
    pub hp: i32,
}

impl Player {
    /// A fresh player at `pos` with 30 hit points and an empty inventory.
    pub fn new(pos: Coords) -> (p: Player)
        ensures
            p.pos == pos,
            p.hp == 30,
            p.inv@.len() == 0,
    {
        Player { pos, inv: Vec::new(), hp: 30 }
    }
}

impl Creature for Player {
    open spec fn spec_pos(&self) -> Coords {
        self.pos
    }

    open spec fn spec_hp(&self) -> int {
        self.hp as int
    }

    open spec fn spec_attack(&self) -> int {
        10
    }

    fn pos(&self) -> (r: Coords) {
        self.pos
    }

    fn tile_name(&self) -> &'static str {
        "P"
    }

    fn take_damage(&mut self, dmg: i32) {
        self.hp = self.hp - dmg;
    }

    fn attack(&self) -> (r: i32) {
        10
    }

    fn is_dead(&self) -> (r: bool) {
        self.hp <= 0
    }

    fn hp(&self) -> (r: i32) {
        self.hp
    }
}

/// A goblin: position, attack strength, and hit points.
pub struct Goblin {
    pub pos: Coords,
    pub atk: i32,
    pub hp: i32,
}

impl Goblin {
    /// A fresh goblin at `pos` with 30 hit points and an attack of 5.
    pub fn new(pos: Coords) -> (g: Goblin)
        ensures
            g.pos == pos,
            g.atk == 5,
            g.hp == 30,
    {
        Goblin { pos, atk: 5, hp: 30 }
    }
}

impl Creature for Goblin {
    open spec fn spec_pos(&self) -> Coords {
        self.pos
    }

    open spec fn spec_hp(&self) -> int {
        self.hp as int
    }

    open spec fn spec_attack(&self) -> int {
        self.atk as int
    }

    fn pos(&self) -> (r: Coords) {
        self.pos
    }

    fn tile_name(&self) -> &'static str {
        "G"
    }

    fn take_damage(&mut self, dmg: i32) {
        self.hp = self.hp - dmg;
    }

    fn attack(&self) -> (r: i32) {
        self.atk
    }

    fn is_dead(&self) -> (r: bool) {
        self.hp <= 0
    }

    fn hp(&self) -> (r: i32) {
        self.hp
    }
}

/// A potion that restores ten hit points when consumed.
pub struct HealingPotion;

impl Item for HealingPotion {
    open spec fn spec_heal(&self) -> int {
        10
    }

    fn id(&self) -> (r: u32) {
        0
    }

    fn tile_name(&self) -> &'static str {
        "potion"
    }

    fn consume<C: Creature>(&mut self, creature: &mut C) {
        creature.take_damage(-10);
    }
}

} // verus!
