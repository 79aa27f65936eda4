use dungeon_gen::entities::deal_damage;
use dungeon_gen::{Coords, Creature, Goblin, HealingPotion, Item, Player};

#[test]
fn new_player_state() {
    let p = Player::new(Coords::new(3, 4));
    assert_eq!((p.pos().x, p.pos().y), (3, 4));
    assert_eq!(p.hp(), 30);
    assert!(p.inv.is_empty());
    assert!(!p.is_dead());
    assert_eq!(p.tile_name(), "P");
    assert_eq!(p.attack(), 10);
}

#[test]
fn new_goblin_state() {
    let g = Goblin::new(Coords::new(1, 1));
    assert_eq!((g.pos().x, g.pos().y), (1, 1));
    assert_eq!(g.hp(), 30);
    assert_eq!(g.atk, 5);
    assert!(!g.is_dead());
    assert_eq!(g.tile_name(), "G");
    assert_eq!(g.attack(), 5);
}

#[test]
fn damage_exchange() {
    let mut p = Player::new(Coords::new(0, 0));
    let mut g = Goblin::new(Coords::new(1, 0));
    deal_damage(&p, &mut g);
    assert_eq!(g.hp(), 20);
    deal_damage(&g, &mut p);
    assert_eq!(p.hp(), 25);
    // three player hits bring the goblin to zero: dead
    deal_damage(&p, &mut g);
    deal_damage(&p, &mut g);
    assert_eq!(g.hp(), 0);
    assert!(g.is_dead());
}

#[test]
fn take_damage_and_heal() {
    let mut p = Player::new(Coords::new(0, 0));
    p.take_damage(12);
    assert_eq!(p.hp(), 18);
    p.take_damage(-3);
    assert_eq!(p.hp(), 21);
    p.take_damage(21);
    assert!(p.is_dead());
}

#[test]
fn potion_heals_ten() {
    let mut p = Player::new(Coords::new(0, 0));
    p.take_damage(15);
    let mut potion = HealingPotion;
    assert_eq!(potion.id(), 0);
    assert_eq!(potion.tile_name(), "potion");
    potion.consume(&mut p);
    assert_eq!(p.hp(), 25);
}
