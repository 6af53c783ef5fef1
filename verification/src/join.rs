//! Joining a game: ids from the clock and a capital on a free cell.
use crate::grid::{coord_key, NodeCoord};
use crate::state::{GameState, GameView};
use rand::Rng;
use vstd::prelude::*;

verus! {

/// Capitals are drawn from coordinates whose parts lie within this
/// distance of zero.
pub const CAPITAL_RANGE: i32 = 10;

/// How often a capital is drawn before the fallback is taken.
pub const CAPITAL_TRIES: usize = 100;

/// A point in time as the standard library's `SystemTime` holds it;
/// nothing is known of what is inside.
#[verifier::external_type_specification]
#[verifier::external_body]
pub struct ExSystemTime(std::time::SystemTime);

/// The standard library's `SystemTimeError`, which says that one time
/// lies before another; nothing is known of what is inside.
#[verifier::external_type_specification]
#[verifier::external_body]
pub struct ExSystemTimeError(std::time::SystemTimeError);

/// The handle on a thread's random number generator, `ThreadRng` of the
/// crate `rand`; nothing is known of its state.
#[verifier::external_type_specification]
#[verifier::external_body]
pub struct ExThreadRng(rand::rngs::ThreadRng);

/// Reads the system clock with `SystemTime::now`. Nothing is claimed of
/// the time read.
#[verifier::external_body]
fn system_now() -> std::time::SystemTime {
    std::time::SystemTime::now()
}

/// The time from the Unix epoch to `t`, by `SystemTime::duration_since`,
/// which fails where `t` lies before the epoch. Nothing is claimed of
/// the outcome.
#[verifier::external_body]
fn since_epoch(t: &std::time::SystemTime) -> Result<
    std::time::Duration,
    std::time::SystemTimeError,
> {
    t.duration_since(std::time::UNIX_EPOCH)
}

/// The whole microseconds in `d`, by `Duration::as_micros`. Nothing is
/// claimed of the number.
#[verifier::external_body]
fn whole_micros(d: &std::time::Duration) -> u128 {
    d.as_micros()
}

/// The whole seconds in `d`, by `Duration::as_secs`. Nothing is claimed
/// of the number.
#[verifier::external_body]
fn whole_secs(d: &std::time::Duration) -> u64 {
    d.as_secs()
}

/// The random number generator of the calling thread, by
/// `rand::thread_rng`.
#[verifier::external_body]
fn thread_rng() -> rand::rngs::ThreadRng {
    rand::thread_rng()
}

/// Draws a number from `low` to `high`, both included, with
/// `Rng::gen_range`, which hands back a value of the range it was given
/// and panics on an empty one.
#[verifier::external_body]
fn gen_range(rng: &mut rand::rngs::ThreadRng, low: i32, high: i32) -> (n: i32)
    requires
        low <= high,
    ensures
        low <= n <= high,
{
    rng.gen_range(low..=high)
}

/// The id that stands for a time of `micros` microseconds: the time
/// itself, cut to sixty-four bits.
pub fn id_of_micros(micros: u128) -> (id: u64)
    ensures
        id == micros % 0x1_0000_0000_0000_0000,
{
    (micros % 0x1_0000_0000_0000_0000) as u64
}

/// Reads the clock: what `timestamp_of` makes of the microseconds since
/// the Unix epoch, where a clock before the epoch reads as `None`.
pub fn current_timestamp() -> u64 {
    let now = system_now();
    timestamp_of(match since_epoch(&now) {
        Ok(d) => Some(whole_micros(&d)),
        Err(_) => None,
    })
}

/// Reads the clock: what `secs_of` makes of the seconds since the epoch.
pub fn current_secs() -> u64 {
    let now = system_now();
    secs_of(match since_epoch(&now) {
        Ok(d) => Some(whole_secs(&d)),
        Err(_) => None,
    })
}

/// An id for a new replica, taken from the clock.
pub fn generate_node_id() -> u64 {
    current_timestamp()
}

/// An id for a new player, taken from the clock.
pub fn generate_player_id() -> u64 {
    current_timestamp()
}

/// The timestamp that a clock gives which stands `since_epoch`
/// microseconds after the Unix epoch, where `None` is a clock that stands
/// before it: the microseconds cut to sixty-four bits, or zero.
pub open spec fn timestamp_at(since_epoch: Option<u128>) -> u64 {
    match since_epoch {
        Some(micros) => (micros % 0x1_0000_0000_0000_0000) as u64,
        None => 0,
    }
}

/// The seconds that a clock gives which stands `since_epoch` seconds
/// after the Unix epoch, where `None` is a clock that stands before it.
pub open spec fn secs_at(since_epoch: Option<u64>) -> u64 {
    match since_epoch {
        Some(secs) => secs,
        None => 0,
    }
}

/// The timestamp for a clock reading.
pub fn timestamp_of(since_epoch: Option<u128>) -> (t: u64)
    ensures
        t == timestamp_at(since_epoch),
{
    match since_epoch {
        Some(micros) => id_of_micros(micros),
        None => 0,
    }
}

/// The seconds for a clock reading.
pub fn secs_of(since_epoch: Option<u64>) -> (s: u64)
    ensures
        s == secs_at(since_epoch),
{
    match since_epoch {
        Some(secs) => secs,
        None => 0,
    }
}

/// Whether both parts of `c` lie within the range of capitals.
pub open spec fn in_capital_range(c: NodeCoord) -> bool {
    &&& -CAPITAL_RANGE <= c.q <= CAPITAL_RANGE
    &&& -CAPITAL_RANGE <= c.r <= CAPITAL_RANGE
}

/// The capital taken when no draw found a free cell.
pub open spec fn fallback_capital(timestamp: u64) -> NodeCoord {
    NodeCoord { q: (timestamp % 20 - 10) as i32, r: (timestamp / 20 % 20 - 10) as i32 }
}

/// The first of the first `n` draws that is free in `s`, if any.
pub open spec fn first_free(s: GameView, draws: Seq<NodeCoord>, n: int) -> Option<NodeCoord>
    decreases n,
{
    if n <= 0 {
        None
    } else {
        match first_free(s, draws, n - 1) {
            Some(c) => Some(c),
            None => if s.nodes.contains_key(coord_key(draws[n - 1])) {
                None
            } else {
                Some(draws[n - 1])
            },
        }
    }
}

/// The capital for a new player: the first draw on which no tile
/// stands, or the fallback where every draw is taken.
pub open spec fn chosen_capital(s: GameView, draws: Seq<NodeCoord>, timestamp: u64) -> NodeCoord {
    match first_free(s, draws, draws.len() as int) {
        Some(c) => c,
        None => fallback_capital(timestamp),
    }
}

/// Whether `c` is the capital that comes of `draws` and `timestamp`,
/// where the draws lie in range and went on until one was free or a
/// hundred were made.
pub open spec fn drawn_capital(s: GameView, draws: Seq<NodeCoord>, timestamp: u64, c: NodeCoord) -> bool {
    &&& draws.len() <= CAPITAL_TRIES
    &&& forall|i: int| 0 <= i < draws.len() ==> in_capital_range(#[trigger] draws[i])
    &&& first_free(s, draws, draws.len() as int) is Some || draws.len() == CAPITAL_TRIES
    &&& c == chosen_capital(s, draws, timestamp)
}

/// Picks the capital for a new player from the draws made.
pub fn choose_capital(game_state: &GameState, draws: &Vec<NodeCoord>, timestamp: u64) -> (c:
    NodeCoord)
    ensures
        c == chosen_capital(game_state@, draws@, timestamp),
{
    let mut i: usize = 0;
    while i < draws.len()
        invariant
            i <= draws.len(),
            first_free(game_state@, draws@, i as int) is None,
        decreases draws.len() - i,
    {
        if game_state.node(draws[i]).is_none() {
            proof {
                lemma_first_free_stays(game_state@, draws@, i + 1, draws@.len() as int);
            }
            return draws[i];
        }
        i += 1;
    }
    let q: i32 = (timestamp % 20) as i32 - 10;
    let r: i32 = (timestamp / 20 % 20) as i32 - 10;
    NodeCoord::new(q, r)
}

/// Once a draw is free, later draws do not change what is picked.
pub proof fn lemma_first_free_stays(s: GameView, draws: Seq<NodeCoord>, n: int, m: int)
    requires
        n <= m,
        first_free(s, draws, n) is Some,
    ensures
        first_free(s, draws, m) == first_free(s, draws, n),
    decreases m - n,
{
    if n < m {
        lemma_first_free_stays(s, draws, n, m - 1);
    }
}

/// One more draw does not change what the draws before it found.
pub proof fn lemma_first_free_push(s: GameView, draws: Seq<NodeCoord>, c: NodeCoord)
    ensures
        first_free(s, draws.push(c), draws.len() as int) == first_free(s, draws, draws.len() as int),
        first_free(s, draws, draws.len() as int) is None ==> first_free(
            s,
            draws.push(c),
            draws.len() as int + 1,
        ) == (if s.nodes.contains_key(coord_key(c)) {
            None
        } else {
            Some(c)
        }),
{
    lemma_first_free_prefix(s, draws, draws.push(c), draws.len() as int);
    assert(draws.push(c)[draws.len() as int] == c);
}

/// What the first `n` draws find depends on those draws alone.
pub proof fn lemma_first_free_prefix(s: GameView, a: Seq<NodeCoord>, b: Seq<NodeCoord>, n: int)
    requires
        n <= a.len(),
        n <= b.len(),
        forall|i: int| 0 <= i < n ==> a[i] == b[i],
    ensures
        first_free(s, a, n) == first_free(s, b, n),
    decreases n,
{
    if n > 0 {
        lemma_first_free_prefix(s, a, b, n - 1);
    }
}

/// A capital that was chosen lies within the range of capitals where
/// every draw does, and no tile stands on it unless every draw was taken.
pub proof fn lemma_chosen_capital(s: GameView, draws: Seq<NodeCoord>, timestamp: u64)
    requires
        forall|i: int| 0 <= i < draws.len() ==> in_capital_range(#[trigger] draws[i]),
    ensures
        in_capital_range(chosen_capital(s, draws, timestamp)),
        first_free(s, draws, draws.len() as int) is Some ==> !s.nodes.contains_key(
            coord_key(chosen_capital(s, draws, timestamp)),
        ),
{
    lemma_first_free_is_free(s, draws, draws.len() as int);
}

/// What `first_free` finds is one of the draws, and free.
pub proof fn lemma_first_free_is_free(s: GameView, draws: Seq<NodeCoord>, n: int)
    requires
        n <= draws.len(),
    ensures
        first_free(s, draws, n) matches Some(c) ==> !s.nodes.contains_key(coord_key(c)) && exists|
            i: int,
        | 0 <= i < n && #[trigger] draws[i] == c,
    decreases n,
{
    if n > 0 {
        lemma_first_free_is_free(s, draws, n - 1);
        if first_free(s, draws, n - 1) is Some {
            let c = first_free(s, draws, n - 1)->0;
            let i = choose|i: int| 0 <= i < n - 1 && #[trigger] draws[i] == c;
            assert(0 <= i < n && draws[i] == c);
        } else if !s.nodes.contains_key(coord_key(draws[n - 1])) {
            assert(0 <= n - 1 < n && draws[n - 1] == draws[n - 1]);
        }
    }
}

/// Draws up to a hundred cells with both parts between minus ten and
/// ten and takes the first on which no tile stands; where every draw is
/// taken, the fallback derived from the clock.
pub fn find_random_unoccupied_coord(game_state: &GameState) -> (c: NodeCoord)
    ensures
        in_capital_range(c),
        exists|draws: Seq<NodeCoord>, timestamp: u64| #[trigger]
            drawn_capital(game_state@, draws, timestamp, c),
{
    let mut rng = thread_rng();
    let mut draws: Vec<NodeCoord> = Vec::new();
    let mut found = false;
    while !found && draws.len() < CAPITAL_TRIES
        invariant
            draws@.len() <= CAPITAL_TRIES,
            forall|j: int| 0 <= j < draws@.len() ==> in_capital_range(#[trigger] draws@[j]),
            found == (first_free(game_state@, draws@, draws@.len() as int) is Some),
        decreases CAPITAL_TRIES - draws@.len() + (if found { 0int } else { 1int }),
    {
        let q = gen_range(&mut rng, -CAPITAL_RANGE, CAPITAL_RANGE);
        let r = gen_range(&mut rng, -CAPITAL_RANGE, CAPITAL_RANGE);
        let c = NodeCoord::new(q, r);
        proof {
            lemma_first_free_push(game_state@, draws@, c);
        }
        draws.push(c);
        if game_state.node(c).is_none() {
            found = true;
        }
    }
    let timestamp = current_timestamp();
    proof {
        lemma_chosen_capital(game_state@, draws@, timestamp);
    }
    let c = choose_capital(game_state, &draws, timestamp);
    proof {
        assert(drawn_capital(game_state@, draws@, timestamp, c));
    }
    c
}

} // verus!
