//! The game-state vocabulary shared by every client: positions, commands,
//! machine parameters, and the helpers that read a turn's state.

use vstd::prelude::*;
use crate::value::{ValV, Value};

verus! {

pub const THRUST_COMMAND: i128 = 0;

pub const SELF_DESTRUCT_COMMAND: i128 = 1;

pub const BEAM_COMMAND: i128 = 2;

pub const SPLIT_COMMAND: i128 = 3;

/// A board position or velocity.
#[derive(Clone, Copy, Debug, Eq, PartialEq, Structural, Hash)]
pub struct Point {
    pub x: isize,
    pub y: isize,
}

/// The absolute value of a coordinate.
pub open spec fn abs_i(x: int) -> int {
    if x < 0 {
        -x
    } else {
        x
    }
}

pub open spec fn max_i(a: int, b: int) -> int {
    if a >= b {
        a
    } else {
        b
    }
}

pub open spec fn min_i(a: int, b: int) -> int {
    if a <= b {
        a
    } else {
        b
    }
}

impl Point {
    pub fn new(x: isize, y: isize) -> (r: Self)
        ensures
            r.x == x && r.y == y,
    {
        Self { x, y }
    }

    /// The position as a wire pair.
    pub fn to_value(&self) -> (r: Value)
        ensures
            r@ == ValV::Cons(
                Box::new(ValV::Int(self.x as int)),
                Box::new(ValV::Int(self.y as int)),
            ),
    {
        proof {
            reveal_with_fuel(crate::value::view_val, 3);
        }
        Value::Cons(
            Box::new(Value::Int(self.x as i128)),
            Box::new(Value::Int(self.y as i128)),
        )
    }

    /// The Chebyshev distance from the origin.
    pub fn lmax_distance(&self) -> (r: isize)
        requires
            self.x > isize::MIN,
            self.y > isize::MIN,
        ensures
            r == max_i(abs_i(self.x as int), abs_i(self.y as int)),
    {
        let ax = if self.x < 0 {
            -self.x
        } else {
            self.x
        };
        let ay = if self.y < 0 {
            -self.y
        } else {
            self.y
        };
        if ax >= ay {
            ax
        } else {
            ay
        }
    }

    /// The squared Euclidean distance to `p`.
    pub fn dist2(self, p: Point) -> (r: isize)
        requires
            isize::MIN <= self.x - p.x <= isize::MAX,
            isize::MIN <= self.y - p.y <= isize::MAX,
            (self.x - p.x) * (self.x - p.x) + (self.y - p.y) * (self.y - p.y) <= isize::MAX,
            0 <= (self.x - p.x) * (self.x - p.x),
            0 <= (self.y - p.y) * (self.y - p.y),
        ensures
            r == (self.x - p.x) * (self.x - p.x) + (self.y - p.y) * (self.y - p.y),
    {
        let dx = self.x - p.x;
        let dy = self.y - p.y;
        proof {
            assert(dx * dx >= 0) by (nonlinear_arith);
            assert(dy * dy >= 0) by (nonlinear_arith);
        }
        dx * dx + dy * dy
    }

    /// The squared norm.
    pub fn norm2(self) -> (r: isize)
        requires
            self.x * self.x + self.y * self.y <= isize::MAX,
        ensures
            r == self.x * self.x + self.y * self.y,
    {
        proof {
            assert(self.x * self.x >= 0) by (nonlinear_arith);
            assert(self.y * self.y >= 0) by (nonlinear_arith);
        }
        self.x * self.x + self.y * self.y
    }
}

/// The machine parameters chosen at start or split.
#[derive(Clone, Copy, Debug, Eq, PartialEq, Structural)]
pub struct Param {
    pub energy: usize,
    pub laser_power: usize,
    pub cool_down_per_turn: usize,
    pub life: usize,
}

impl Default for Param {
    fn default() -> (r: Self)
        ensures
            r.energy == 0 && r.laser_power == 0 && r.cool_down_per_turn == 0 && r.life == 0,
    {
        Param { energy: 0, laser_power: 0, cool_down_per_turn: 0, life: 0 }
    }
}

/// One command issued for one machine in one turn.
#[derive(Clone, Copy, Debug, Eq, PartialEq, Structural)]
pub enum Command {
    /// Thrust: machine and acceleration.
    Thrust(isize, Point),
    /// Self destruct: machine.
    Bomb(isize),
    /// Beam: machine, target and power.
    Beam(isize, Point, isize),
    /// Split: machine and the new machine's parameters.
    Split(isize, Param),
}

/// The wire form of a point.
pub open spec fn point_val(p: Point) -> ValV {
    ValV::Cons(Box::new(ValV::Int(p.x as int)), Box::new(ValV::Int(p.y as int)))
}

/// A wire list.
pub open spec fn vlist(es: Seq<ValV>) -> ValV
    decreases es.len(),
{
    if es.len() == 0 {
        ValV::Nil
    } else {
        ValV::Cons(Box::new(es[0]), Box::new(vlist(es.skip(1))))
    }
}

/// The wire form of a command: a tagged list as the server reads it.
pub open spec fn command_val(c: Command) -> ValV {
    match c {
        Command::Thrust(ship, pos) => vlist(
            seq![ValV::Int(THRUST_COMMAND as int), ValV::Int(ship as int), point_val(pos)],
        ),
        Command::Bomb(ship) => vlist(
            seq![ValV::Int(SELF_DESTRUCT_COMMAND as int), ValV::Int(ship as int)],
        ),
        Command::Beam(ship, target, power) => vlist(
            seq![
                ValV::Int(BEAM_COMMAND as int),
                ValV::Int(ship as int),
                point_val(target),
                ValV::Int(power as int),
            ],
        ),
        Command::Split(ship, param) => vlist(
            seq![
                ValV::Int(SPLIT_COMMAND as int),
                ValV::Int(ship as int),
                vlist(
                    seq![
                        ValV::Int(param.energy as int),
                        ValV::Int(param.laser_power as int),
                        ValV::Int(param.cool_down_per_turn as int),
                        ValV::Int(param.life as int),
                    ],
                ),
            ],
        ),
    }
}

impl Command {
    /// The wire form of the command.
    pub fn to_value(&self) -> (r: Value)
        ensures
            r@ == command_val(*self),
    {
        proof {
            reveal_with_fuel(vlist, 8);
            reveal_with_fuel(crate::value::view_val, 8);
        }
        match self {
            Command::Thrust(ship, pos) => {
                let r = crate::dsl::cons(
                    crate::dsl::int_val(THRUST_COMMAND),
                    crate::dsl::cons(
                        crate::dsl::int_val(*ship as i128),
                        crate::dsl::cons(pos.to_value(), crate::dsl::nil()),
                    ),
                );
                proof {
                    lemma_vlist3(
                        ValV::Int(THRUST_COMMAND as int),
                        ValV::Int(*ship as int),
                        point_val(*pos),
                    );
                }
                r
            },
            Command::Bomb(ship) => {
                let r = crate::dsl::cons(
                    crate::dsl::int_val(SELF_DESTRUCT_COMMAND),
                    crate::dsl::cons(crate::dsl::int_val(*ship as i128), crate::dsl::nil()),
                );
                proof {
                    lemma_vlist2(ValV::Int(SELF_DESTRUCT_COMMAND as int), ValV::Int(*ship as int));
                }
                r
            },
            Command::Beam(ship, target, power) => {
                let r = crate::dsl::cons(
                    crate::dsl::int_val(BEAM_COMMAND),
                    crate::dsl::cons(
                        crate::dsl::int_val(*ship as i128),
                        crate::dsl::cons(
                            target.to_value(),
                            crate::dsl::cons(
                                crate::dsl::int_val(*power as i128),
                                crate::dsl::nil(),
                            ),
                        ),
                    ),
                );
                proof {
                    lemma_vlist4(
                        ValV::Int(BEAM_COMMAND as int),
                        ValV::Int(*ship as int),
                        point_val(*target),
                        ValV::Int(*power as int),
                    );
                }
                r
            },
            Command::Split(ship, param) => {
                let params = crate::dsl::cons(
                    crate::dsl::int_val(param.energy as i128),
                    crate::dsl::cons(
                        crate::dsl::int_val(param.laser_power as i128),
                        crate::dsl::cons(
                            crate::dsl::int_val(param.cool_down_per_turn as i128),
                            crate::dsl::cons(
                                crate::dsl::int_val(param.life as i128),
                                crate::dsl::nil(),
                            ),
                        ),
                    ),
                );
                proof {
                    lemma_vlist4(
                        ValV::Int(param.energy as int),
                        ValV::Int(param.laser_power as int),
                        ValV::Int(param.cool_down_per_turn as int),
                        ValV::Int(param.life as int),
                    );
                }
                let r = crate::dsl::cons(
                    crate::dsl::int_val(SPLIT_COMMAND),
                    crate::dsl::cons(crate::dsl::int_val(*ship as i128), crate::dsl::cons(params, crate::dsl::nil())),
                );
                proof {
                    lemma_vlist3(
                        ValV::Int(SPLIT_COMMAND as int),
                        ValV::Int(*ship as int),
                        vlist(
                            seq![
                                ValV::Int(param.energy as int),
                                ValV::Int(param.laser_power as int),
                                ValV::Int(param.cool_down_per_turn as int),
                                ValV::Int(param.life as int),
                            ],
                        ),
                    );
                }
                r
            },
        }
    }
}

proof fn lemma_vlist2(a: ValV, b: ValV)
    ensures
        vlist(seq![a, b]) == ValV::Cons(
            Box::new(a),
            Box::new(ValV::Cons(Box::new(b), Box::new(ValV::Nil))),
        ),
{
    reveal_with_fuel(vlist, 4);
    assert(seq![a, b].skip(1) =~= seq![b]);
    assert(seq![b].skip(1) =~= Seq::<ValV>::empty());
}

proof fn lemma_vlist3(a: ValV, b: ValV, c: ValV)
    ensures
        vlist(seq![a, b, c]) == ValV::Cons(
            Box::new(a),
            Box::new(
                ValV::Cons(
                    Box::new(b),
                    Box::new(ValV::Cons(Box::new(c), Box::new(ValV::Nil))),
                ),
            ),
        ),
{
    reveal_with_fuel(vlist, 5);
    assert(seq![a, b, c].skip(1) =~= seq![b, c]);
    assert(seq![b, c].skip(1) =~= seq![c]);
    assert(seq![c].skip(1) =~= Seq::<ValV>::empty());
}

proof fn lemma_vlist4(a: ValV, b: ValV, c: ValV, d: ValV)
    ensures
        vlist(seq![a, b, c, d]) == ValV::Cons(
            Box::new(a),
            Box::new(
                ValV::Cons(
                    Box::new(b),
                    Box::new(
                        ValV::Cons(
                            Box::new(c),
                            Box::new(ValV::Cons(Box::new(d), Box::new(ValV::Nil))),
                        ),
                    ),
                ),
            ),
        ),
{
    reveal_with_fuel(vlist, 6);
    assert(seq![a, b, c, d].skip(1) =~= seq![b, c, d]);
    assert(seq![b, c, d].skip(1) =~= seq![c, d]);
    assert(seq![c, d].skip(1) =~= seq![d]);
    assert(seq![d].skip(1) =~= Seq::<ValV>::empty());
}

/// Where the game stands.
#[derive(Clone, Copy, Debug, Eq, PartialEq, Structural)]
pub enum CurrentGameState {
    START,
    PLAYING,
    END,
}

/// Which side a machine fights for.
#[derive(Clone, Copy, Debug, Eq, PartialEq, Structural)]
pub enum Role {
    ATTACKER,
    DEFENDER,
}

impl Default for Role {
    fn default() -> (r: Self)
        ensures
            r == Role::ATTACKER,
    {
        Role::ATTACKER
    }
}

impl Role {
    /// The other side.
    pub fn opposite(self) -> (r: Role)
        ensures
            self == Role::ATTACKER ==> r == Role::DEFENDER,
            self == Role::DEFENDER ==> r == Role::ATTACKER,
    {
        match self {
            Role::ATTACKER => Role::DEFENDER,
            Role::DEFENDER => Role::ATTACKER,
        }
    }
}

/// The stage's gravity source and outer bound.
#[derive(Clone, Copy, Debug, Eq, PartialEq, Structural)]
pub struct Obstacle {
    /// Death when both coordinates fall inside this radius.
    pub gravity_radius: usize,
    /// Death when either coordinate leaves this half-size.
    pub stage_half_size: usize,
}

/// What the server declares about the stage at start.
#[derive(Clone, Debug, Eq, PartialEq)]
pub struct StageData {
    pub total_turns: usize,
    pub self_role: Role,
    pub initialize_param: InitializeParam,
    pub obstacle: Option<Obstacle>,
    pub defender: Option<Param>,
}

/// The budget the joining player may spend.
#[derive(Clone, Copy, Debug, Eq, PartialEq, Structural)]
pub struct InitializeParam {
    pub total_cost: usize,
    pub thrust_limit: usize,
    pub heat_limit: usize,
}

/// One machine's state in one turn.
#[derive(Clone, Copy, Debug, Eq, PartialEq, Structural)]
pub struct Machine {
    pub role: Role,
    pub machine_id: isize,
    pub position: Point,
    pub velocity: Point,
    pub params: Param,
    pub heat: usize,
    pub heat_limit: usize,
    pub move_limit: usize,
}

/// What one machine's command achieved last turn.
#[derive(Clone, Copy, Debug, Eq, PartialEq, Structural)]
pub enum ActionResult {
    Thruster { a: Point },
    Bomb { power: usize, area: usize },
    Laser { opponent: Point, power: usize, intensity: usize, spare: isize },
    Split { params: Param },
}

/// The whole board in one turn.
#[derive(Clone, Debug, Eq, PartialEq)]
pub struct CurrentState {
    pub turn: usize,
    pub obstacle: Option<Obstacle>,
    pub machines: Vec<(Machine, Vec<ActionResult>)>,
}

/// One decoded server answer.
#[derive(Clone, Debug, Eq, PartialEq)]
pub struct Response {
    pub current_game_state: CurrentGameState,
    pub stage_data: StageData,
    pub current_state: Option<CurrentState>,
}

/// The machine identifiers on `role`'s side, in board order.
pub open spec fn roled_ids(ms: Seq<(Machine, Vec<ActionResult>)>, role: Role) -> Seq<isize>
    decreases ms.len(),
{
    if ms.len() == 0 {
        Seq::empty()
    } else if ms[0].0.role == role {
        seq![ms[0].0.machine_id] + roled_ids(ms.skip(1), role)
    } else {
        roled_ids(ms.skip(1), role)
    }
}

/// The identifiers of the machines on the given side.
#[verifier::loop_isolation(false)]
pub fn get_roled_machine_ids(state: &CurrentState, role: Role) -> (r: Vec<isize>)
    ensures
        r@ == roled_ids(state.machines@, role),
{
    let mut out: Vec<isize> = Vec::new();
    let mut i: usize = 0;
    proof {
        assert(state.machines@.skip(0) =~= state.machines@);
        assert(Seq::<isize>::empty() + roled_ids(state.machines@, role) =~= roled_ids(
            state.machines@,
            role,
        ));
    }
    while i < state.machines.len()
        invariant
            i <= state.machines@.len(),
            roled_ids(state.machines@, role) == out@ + roled_ids(
                state.machines@.skip(i as int),
                role,
            ),
        decreases state.machines@.len() - i,
    {
        proof {
            assert(state.machines@.skip(i as int)[0] == state.machines@[i as int]);
            assert(state.machines@.skip(i as int).skip(1) =~= state.machines@.skip(i + 1));
        }
        if state.machines[i].0.role == role {
            let ghost out0 = out@;
            out.push(state.machines[i].0.machine_id);
            proof {
                assert(out0 + (seq![state.machines@[i as int].0.machine_id] + roled_ids(
                    state.machines@.skip(i + 1),
                    role,
                )) =~= out@ + roled_ids(state.machines@.skip(i + 1), role));
            }
        }
        i = i + 1;
    }
    proof {
        assert(state.machines@.skip(state.machines@.len() as int)
            =~= Seq::<(Machine, Vec<ActionResult>)>::empty());
        assert(out@ + Seq::<isize>::empty() =~= out@);
    }
    out
}

/// The first index carrying `machine_id`, if any.
pub open spec fn find_machine(ms: Seq<(Machine, Vec<ActionResult>)>, machine_id: isize) -> Option<
    int,
> {
    if exists|i: int| 0 <= i < ms.len() && ms[i].0.machine_id == machine_id {
        Some(
            choose|i: int|
                0 <= i < ms.len() && ms[i].0.machine_id == machine_id && forall|j: int|
                    0 <= j < i ==> ms[j].0.machine_id != machine_id,
        )
    } else {
        None
    }
}

/// The machine with the given identifier, if present.
#[verifier::loop_isolation(false)]
pub fn get_machine_by_id<'a>(state: &'a CurrentState, machine_id: isize) -> (r: Option<
    &'a Machine,
>)
    ensures
        match r {
            Some(m) => exists|i: int|
                0 <= i < state.machines@.len() && state.machines@[i].0.machine_id == machine_id
                    && *m == state.machines@[i].0,
            None => forall|i: int|
                0 <= i < state.machines@.len() ==> state.machines@[i].0.machine_id != machine_id,
        },
{
    let mut i: usize = 0;
    while i < state.machines.len()
        invariant
            i <= state.machines@.len(),
            forall|j: int| 0 <= j < i ==> state.machines@[j].0.machine_id != machine_id,
        decreases state.machines@.len() - i,
    {
        if state.machines[i].0.machine_id == machine_id {
            return Some(&state.machines[i].0);
        }
        i = i + 1;
    }
    None
}

/// The action results of the machine with the given identifier, if present.
#[verifier::loop_isolation(false)]
pub fn get_results_by_id<'a>(state: &'a CurrentState, machine_id: isize) -> (r: Option<
    &'a Vec<ActionResult>,
>)
    ensures
        match r {
            Some(rs) => exists|i: int|
                0 <= i < state.machines@.len() && state.machines@[i].0.machine_id == machine_id
                    && rs@ == state.machines@[i].1@,
            None => forall|i: int|
                0 <= i < state.machines@.len() ==> state.machines@[i].0.machine_id != machine_id,
        },
{
    let mut i: usize = 0;
    while i < state.machines.len()
        invariant
            i <= state.machines@.len(),
            forall|j: int| 0 <= j < i ==> state.machines@[j].0.machine_id != machine_id,
        decreases state.machines@.len() - i,
    {
        if state.machines[i].0.machine_id == machine_id {
            return Some(&state.machines[i].1);
        }
        i = i + 1;
    }
    None
}

/// The intensity a beam of the given power delivers at relative offset `d`:
/// triple power, diminished by distance, and further by misalignment.
pub open spec fn intensity_spec(dx: int, dy: int, power: int) -> int {
    let base = 3 * power;
    let dist = max_i(dx, dy);
    let step1 = base - min_i(max_i(dist, 1) - 1, base);
    if dist > 0 {
        let offset = min_i(min_i(dx, dy), dist - min_i(dx, dy));
        let decay = 6 * power * offset / dist;
        step1 - min_i(step1, decay)
    } else {
        step1
    }
}

/// The intensity of a beam at target offset `d`.
pub fn get_intensity(d: &Point, power: usize) -> (r: usize)
    requires
        d.x > isize::MIN,
        d.y > isize::MIN,
        power <= 0x1000_0000,
        abs_i(d.x as int) <= 0x1000_0000,
        abs_i(d.y as int) <= 0x1000_0000,
    ensures
        r == intensity_spec(abs_i(d.x as int), abs_i(d.y as int), power as int),
{
    let dx: usize = if d.x < 0 {
        (-d.x) as usize
    } else {
        d.x as usize
    };
    let dy: usize = if d.y < 0 {
        (-d.y) as usize
    } else {
        d.y as usize
    };
    let mut intensity: usize = 3 * power;
    let dist: usize = if dx >= dy {
        dx
    } else {
        dy
    };
    let dist1: usize = if dist >= 1 {
        dist
    } else {
        1
    };
    let dec1: usize = if dist1 - 1 <= intensity {
        dist1 - 1
    } else {
        intensity
    };
    intensity = intensity - dec1;
    if dist > 0 {
        let mn: usize = if dx <= dy {
            dx
        } else {
            dy
        };
        let off2: usize = dist - mn;
        let offset: usize = if mn <= off2 {
            mn
        } else {
            off2
        };
        proof {
            assert(6 * (power as int) * (offset as int) <= 6 * 0x1000_0000 * 0x1000_0000)
                by (nonlinear_arith)
                requires
                    power <= 0x1000_0000,
                    offset <= 0x1000_0000,
                    0 <= power,
                    0 <= offset,
            ;
            assert(6 * (power as int) * (offset as int) >= 0) by (nonlinear_arith)
                requires
                    0 <= power,
                    0 <= offset,
            ;
        }
        let prod: u64 = 6u64 * (power as u64) * (offset as u64);
        proof {
            assert(6 * (power as int) * (offset as int) == (6u64 * (power as u64)) as int * (
            offset as int)) by (nonlinear_arith)
                requires
                    0 <= power <= 0x1000_0000,
                    0 <= offset <= 0x1000_0000,
            ;
        }
        let decay64: u64 = prod / (dist as u64);
        let dec2: usize = if decay64 <= intensity as u64 {
            decay64 as usize
        } else {
            intensity
        };
        intensity = intensity - dec2;
    }
    intensity
}

} // verus!
