//! Game entities (the player and monsters), their combat statistics, and the
//! melee/death state transitions.

use vstd::prelude::*;
use vstd::string::StringExecFns;
use crate::tiles::{Color, Game, LogEvent};

verus! {

/// Bound on every combat statistic; keeps all damage arithmetic inside `i32`.
pub const STAT_LIMIT: i32 = 100000;

/// Selects which death-transition procedure runs when hit points reach zero.
#[derive(Clone, Copy, Debug, PartialEq, Eq, Structural)]
pub enum DeathCallback {
    Player,
    Monster,
}

/// Combat-related properties of an entity that can deal and take damage.
#[derive(Clone, Copy, Debug, PartialEq, Eq, Structural)]
pub struct Fighter {
    pub max_hp: i32,
    pub hp: i32,
    pub defense: i32,
    pub power: i32,
    pub on_death: DeathCallback,
}

impl Fighter {
    /// Statistics stay bounded, and hit points never exceed the maximum.
    /// Hit points may go negative for the one step between a hit and the
    /// death transition.
    pub open spec fn wf(self) -> bool {
        &&& -STAT_LIMIT <= self.hp <= self.max_hp <= STAT_LIMIT
        &&& 0 <= self.defense <= STAT_LIMIT
        &&& 0 <= self.power <= STAT_LIMIT
    }
}

/// Behavior variants of monsters; an open tag so further kinds can be added
/// without touching the dispatch contract.
#[derive(Clone, Debug, PartialEq, Eq, Structural)]
pub enum Ai {
    Basic,
}

/// A positioned actor: the player or a monster. Always represented by one
/// character glyph on screen.
#[derive(Clone, Debug)]
pub struct Object {
    pub x: i32,
    pub y: i32,
    pub character: char,
    pub color: Color,
    pub name: String,
    pub blocks: bool,
    pub alive: bool,
    pub fighter: Option<Fighter>,
    pub ai: Option<Ai>,
}

/// The color an entity is recolored to when it becomes a corpse.
pub open spec fn spec_dead_color() -> Color {
    Color { r: 191, g: 0, b: 0 }
}

/// Well-formedness of an optional set of combat statistics.
pub open spec fn fighter_opt_wf(f: Option<Fighter>) -> bool {
    match f {
        Some(x) => x.wf(),
        None => true,
    }
}

impl Object {
    /// An entity's invariant: its statistics are bounded, and a living
    /// fighter always has at least one hit point (death fires the instant
    /// hit points drop to zero, so the two states never coexist).
    pub open spec fn wf(self) -> bool {
        &&& fighter_opt_wf(self.fighter)
        &&& (self.alive && self.fighter is Some ==> self.fighter->0.hp >= 1)
    }

    pub fn new(x: i32, y: i32, character: char, name: &str, color: Color, blocks: bool) -> (o:
        Object)
        ensures
            o.x == x,
            o.y == y,
            o.character == character,
            o.name@ == name@,
            o.color == color,
            o.blocks == blocks,
            !o.alive,
            o.fighter is None,
            o.ai is None,
            o.wf(),
    {
        Object {
            x,
            y,
            character,
            name: name.to_owned(),
            color,
            blocks,
            alive: false,
            fighter: None,
            ai: None,
        }
    }

    pub fn pos(&self) -> (p: (i32, i32))
        ensures
            p == (self.x, self.y),
    {
        (self.x, self.y)
    }

    pub fn set_pos(&mut self, x: i32, y: i32)
        ensures
            *final(self) == (Object { x, y, ..*old(self) }),
    {
        self.x = x;
        self.y = y;
    }

    /// The truncated Euclidean distance to another entity: the largest `d`
    /// with `d * d` no greater than the squared distance.
    pub fn distance_to(&self, other: &Object) -> (d: i64)
        requires
            -0x10000 <= self.x <= 0x10000,
            -0x10000 <= self.y <= 0x10000,
            -0x10000 <= other.x <= 0x10000,
            -0x10000 <= other.y <= 0x10000,
        ensures
            0 <= d,
            d * d <= (other.x - self.x) * (other.x - self.x) + (other.y - self.y) * (other.y
                - self.y) < (d + 1) * (d + 1),
    {
        let dx: i64 = other.x as i64 - self.x as i64;
        let dy: i64 = other.y as i64 - self.y as i64;
        proof {
            assert(0 <= dx * dx <= 0x2000_0000_0000 && 0 <= dy * dy <= 0x2000_0000_0000)
                by (nonlinear_arith)
                requires
                    -0x20001 <= dx <= 0x20001,
                    -0x20001 <= dy <= 0x20001,
            {
            }
        }
        let sq: i64 = dx * dx + dy * dy;
        isqrt(sq)
    }
}

/// The largest integer whose square does not exceed `s`.
fn isqrt(s: i64) -> (r: i64)
    requires
        0 <= s <= 0x4000_0000_0000,
    ensures
        0 <= r,
        r * r <= s < (r + 1) * (r + 1),
{
    let mut r: i64 = 0;
    while (r + 1) * (r + 1) <= s
        invariant
            0 <= r <= 0x80_0000,
            r <= s <= 0x4000_0000_0000,
            r * r <= s,
            (r + 1) * (r + 1) <= 0x4100_0000_0000,
        decreases s - r,
    {
        r = r + 1;
        proof {
            assert(r * r <= s && r <= 0x80_0000 && r <= s && (r + 1) * (r + 1)
                <= 0x4100_0000_0000) by (nonlinear_arith)
                requires
                    1 <= r,
                    r * r <= s,
                    s <= 0x4000_0000_0000,
            {
            }
        }
    }
    r
}

/// The attack power of an optional fighter; an entity without combat
/// statistics attacks with power zero.
pub open spec fn spec_power(f: Option<Fighter>) -> int {
    match f {
        Some(x) => x.power as int,
        None => 0,
    }
}

/// The defense of an optional fighter; an entity without combat statistics
/// defends with zero.
pub open spec fn spec_defense(f: Option<Fighter>) -> int {
    match f {
        Some(x) => x.defense as int,
        None => 0,
    }
}

/// The melee damage formula: attacker power minus defender defense. There is
/// no randomness in combat resolution.
pub open spec fn spec_melee_damage(attacker: Option<Fighter>, target: Option<Fighter>) -> int {
    spec_power(attacker) - spec_defense(target)
}

/// The fighter after a hit: positive damage is subtracted from hit points,
/// zero or negative damage changes nothing.
pub open spec fn spec_damaged(f: Fighter, damage: int) -> Fighter {
    if damage > 0 {
        Fighter { hp: (f.hp - damage) as i32, ..f }
    } else {
        f
    }
}

/// Exactly how the death transition selected by `tag` relates a freshly
/// dead entity and the log to the entity and the log afterward: the player
/// is recolored to a corpse marker and keeps fighting statistics; a monster
/// becomes an inert, walkable, renamed corpse.
pub open spec fn death_post(
    tag: DeathCallback,
    o: Object,
    o2: Object,
    m: Seq<LogEvent>,
    m2: Seq<LogEvent>,
) -> bool {
    match tag {
        DeathCallback::Player => {
            &&& o2 == (Object { character: '%', color: spec_dead_color(), ..o })
            &&& m2 == m.push(LogEvent::PlayerDied)
        },
        DeathCallback::Monster => {
            &&& o2.x == o.x
            &&& o2.y == o.y
            &&& o2.character == '%'
            &&& o2.color == spec_dead_color()
            &&& o2.name@ == "remains of "@ + o.name@
            &&& !o2.blocks
            &&& o2.alive == o.alive
            &&& o2.fighter is None
            &&& o2.ai is None
            &&& m2 == m.push(LogEvent::MonsterDied { name: o.name })
        },
    }
}

/// Exactly how `take_damage` relates the entity and the log before the call
/// to the entity and the log after it. An entity that is already dead, or
/// has no combat statistics, is left untouched and logs nothing; otherwise
/// damage is applied and, the instant hit points drop below one, `alive` is
/// cleared and the death transition matching the entity's tag fires exactly
/// once.
pub open spec fn take_damage_post(
    o: Object,
    damage: int,
    o2: Object,
    m: Seq<LogEvent>,
    m2: Seq<LogEvent>,
) -> bool {
    if o.alive && o.fighter is Some {
        let f2 = spec_damaged(o.fighter->0, damage);
        if f2.hp >= 1 {
            o2 == (Object { fighter: Some(f2), ..o }) && m2 == m
        } else {
            death_post(
                o.fighter->0.on_death,
                Object { alive: false, fighter: Some(f2), ..o },
                o2,
                m,
                m2,
            )
        }
    } else {
        o2 == o && m2 == m
    }
}

impl DeathCallback {
    /// Dispatch to the death-transition procedure this tag selects.
    fn callback(self, object: &mut Object, game: &mut Game)
        ensures
            final(game).map == old(game).map,
            death_post(
                self,
                *old(object),
                *final(object),
                old(game).messages@,
                final(game).messages@,
            ),
    {
        match self {
            DeathCallback::Player => player_death(object, game),
            DeathCallback::Monster => monster_death(object, game),
        }
    }
}

/// The player's death transition: the terminal log event, and the glyph
/// recolored to a corpse marker. The game object itself stays in the store.
fn player_death(player: &mut Object, game: &mut Game)
    ensures
        *final(player) == (Object {
            character: '%',
            color: spec_dead_color(),
            ..*old(player)
        }),
        final(game).map == old(game).map,
        final(game).messages@ == old(game).messages@.push(LogEvent::PlayerDied),
{
    game.messages.push(LogEvent::PlayerDied);
    player.character = '%';
    player.color = Color { r: 191, g: 0, b: 0 };
}

/// A monster's death transition: it becomes an inert, walkable corpse with
/// no combat statistics and no behavior, renamed to a remains label.
fn monster_death(monster: &mut Object, game: &mut Game)
    ensures
        final(monster).x == old(monster).x,
        final(monster).y == old(monster).y,
        final(monster).character == '%',
        final(monster).color == spec_dead_color(),
        final(monster).name@ == "remains of "@ + old(monster).name@,
        !final(monster).blocks,
        final(monster).alive == old(monster).alive,
        final(monster).fighter is None,
        final(monster).ai is None,
        final(game).map == old(game).map,
        final(game).messages@ == old(game).messages@.push(
            LogEvent::MonsterDied { name: old(monster).name },
        ),
{
    let dead_name = monster.name.clone();
    game.messages.push(LogEvent::MonsterDied { name: dead_name });
    monster.character = '%';
    monster.color = Color { r: 191, g: 0, b: 0 };
    monster.blocks = false;
    monster.fighter = None;
    monster.ai = None;
    let mut remains = String::from_str("remains of ");
    remains.append(monster.name.as_str());
    monster.name = remains;
}

impl Object {
    /// Apply damage to this entity, firing its death transition the instant
    /// hit points drop below one. Guarded on `alive`: an entity that is
    /// already dead never re-triggers its death transition, whatever further
    /// damage is applied.
    pub fn take_damage(&mut self, damage: i32, game: &mut Game)
        requires
            old(self).wf(),
            -STAT_LIMIT <= damage <= STAT_LIMIT,
        ensures
            final(self).wf(),
            final(self).x == old(self).x && final(self).y == old(self).y,
            final(game).map == old(game).map,
            take_damage_post(
                *old(self),
                damage as int,
                *final(self),
                old(game).messages@,
                final(game).messages@,
            ),
            !old(self).alive ==> *final(self) == *old(self) && final(game).messages@ == old(
                game,
            ).messages@,
    {
        if !self.alive {
            return ;
        }
        if damage > 0 {
            if let Some(f) = self.fighter {
                self.fighter = Some(Fighter { hp: f.hp - damage, ..f });
            }
        }
        if let Some(f) = self.fighter {
            if f.hp <= 0 {
                self.alive = false;
                f.on_death.callback(self, game);
            }
        }
    }
}

/// Exactly how a melee attack relates the defender and the log before the
/// blow to the defender and the log after it, given the attacker's name and
/// statistics. Positive damage is logged and applied; zero or negative
/// damage is logged as having no effect and changes no state.
pub open spec fn attack_post(
    attacker_name: String,
    attacker_fighter: Option<Fighter>,
    t: Object,
    t2: Object,
    m: Seq<LogEvent>,
    m2: Seq<LogEvent>,
) -> bool {
    let damage = spec_melee_damage(attacker_fighter, t.fighter);
    if damage > 0 {
        take_damage_post(
            t,
            damage,
            t2,
            m.push(
                LogEvent::Attack {
                    attacker: attacker_name,
                    target: t.name,
                    damage: damage as i32,
                },
            ),
            m2,
        )
    } else {
        t2 == t && m2 == m.push(
            LogEvent::NoEffect { attacker: attacker_name, target: t.name },
        )
    }
}

/// One melee blow against `target` from an attacker given by name and
/// statistics. The attacker itself is never changed by a blow, so its two
/// relevant fields are passed by value; the entity store hands them over
/// without aliasing the defender.
pub fn attack_core(
    attacker_name: &String,
    attacker_fighter: Option<Fighter>,
    target: &mut Object,
    game: &mut Game,
)
    requires
        old(target).wf(),
        fighter_opt_wf(attacker_fighter),
    ensures
        final(target).wf(),
        final(target).x == old(target).x && final(target).y == old(target).y,
        final(game).map == old(game).map,
        attack_post(
            *attacker_name,
            attacker_fighter,
            *old(target),
            *final(target),
            old(game).messages@,
            final(game).messages@,
        ),
{
    let power = match attacker_fighter {
        Some(f) => f.power,
        None => 0,
    };
    let defense = match target.fighter {
        Some(f) => f.defense,
        None => 0,
    };
    let damage = power - defense;
    if damage > 0 {
        game.messages.push(
            LogEvent::Attack {
                attacker: attacker_name.clone(),
                target: target.name.clone(),
                damage,
            },
        );
        target.take_damage(damage, game);
    } else {
        game.messages.push(
            LogEvent::NoEffect { attacker: attacker_name.clone(), target: target.name.clone() },
        );
    }
}

impl Object {
    /// Melee attack against `target`: damage is this entity's power minus
    /// the target's defense.
    pub fn attack(&self, target: &mut Object, game: &mut Game)
        requires
            old(target).wf(),
            fighter_opt_wf(self.fighter),
        ensures
            final(target).wf(),
            final(target).x == old(target).x && final(target).y == old(target).y,
            final(game).map == old(game).map,
            attack_post(
                self.name,
                self.fighter,
                *old(target),
                *final(target),
                old(game).messages@,
                final(game).messages@,
            ),
    {
        attack_core(&self.name, self.fighter, target, game);
    }
}

/// Combat is deterministic: with the attacker's statistics, the defender's
/// state and the log fixed, two resolutions of the same blow agree on the
/// resulting log and on every observable field of the defender — there is no
/// hidden randomness in combat resolution.
pub proof fn lemma_attack_deterministic(
    attacker_name: String,
    attacker_fighter: Option<Fighter>,
    t: Object,
    ta: Object,
    tb: Object,
    m: Seq<LogEvent>,
    ma: Seq<LogEvent>,
    mb: Seq<LogEvent>,
)
    requires
        attack_post(attacker_name, attacker_fighter, t, ta, m, ma),
        attack_post(attacker_name, attacker_fighter, t, tb, m, mb),
    ensures
        ma == mb,
        ta.x == tb.x,
        ta.y == tb.y,
        ta.character == tb.character,
        ta.color == tb.color,
        ta.name@ == tb.name@,
        ta.blocks == tb.blocks,
        ta.alive == tb.alive,
        ta.fighter == tb.fighter,
        ta.ai == tb.ai,
{
}

/// Death fires at most once: applying any further damage to an entity that
/// is already dead leaves it and the log exactly as they were, so its death
/// transition never re-triggers.
pub proof fn lemma_death_idempotent(
    o: Object,
    damage: int,
    o2: Object,
    m: Seq<LogEvent>,
    m2: Seq<LogEvent>,
)
    requires
        !o.alive,
        take_damage_post(o, damage, o2, m, m2),
    ensures
        o2 == o,
        m2 == m,
{
}

} // verus!
