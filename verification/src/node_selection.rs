//! Automatic node selection by delay, and the per-installation values that
//! come from a stable hash of the installation's identifier.
//!
//! Probing is the caller's part: the library names the nodes to probe and
//! picks from the delays measured.
//!
//! The hash is the first eight bytes, read big-endian, of the SHA-256 digest
//! of the parts, each followed by a zero byte.
use vstd::prelude::*;
use sha2::Digest;
use crate::text::{bytes_equal, utf8_bytes};
use crate::data_plane_nodes::{SelectorGroup, nodes_view};

verus! {

/// How long an automatic selection waits for one delay probe.
pub const AUTOMATIC_PROBE_TIMEOUT_MS: u64 = 1500;

/// The SHA-256 digest of `data`.
pub uninterp spec fn sha256_digest(data: Seq<u8>) -> Seq<u8>;

/// `sha2::Sha256::digest`: the digest of the bytes, which is 32 bytes long.
#[verifier::external_body]
fn sha256(data: &[u8]) -> (r: Vec<u8>)
    ensures
        r@ == sha256_digest(data@),
        r@.len() == 32,
{
    sha2::Sha256::digest(data).to_vec()
}

/// The bytes hashed for a list of parts: each part followed by a zero byte.
pub open spec fn hash_input(parts: Seq<Seq<u8>>) -> Seq<u8>
    decreases parts.len(),
{
    if parts.len() == 0 {
        Seq::empty()
    } else {
        hash_input(parts.drop_last()) + parts.last() + seq![0u8]
    }
}

/// The unsigned value of bytes read big-endian.
pub open spec fn big_endian_value(s: Seq<u8>) -> nat
    decreases s.len(),
{
    if s.len() == 0 {
        0
    } else {
        big_endian_value(s.drop_last()) * 256 + s.last() as nat
    }
}

/// The stable hash of a list of parts.
pub open spec fn spec_stable_hash(parts: Seq<Seq<u8>>) -> nat {
    big_endian_value(sha256_digest(hash_input(parts)).subrange(0, 8))
}

spec fn pow256(n: nat) -> nat
    decreases n,
{
    if n == 0 {
        1
    } else {
        pow256((n - 1) as nat) * 256
    }
}

/// The stable hash of the parts: the first eight bytes, big-endian, of the
/// SHA-256 digest of the parts, each followed by a zero byte.
pub fn stable_hash(parts: &[&[u8]]) -> (r: u64)
    ensures
        r == spec_stable_hash(parts@.map_values(|p: &[u8]| p@)),
{
    let ghost views = parts@.map_values(|p: &[u8]| p@);
    let mut input: Vec<u8> = Vec::new();
    let mut i: usize = 0;
    while i < parts.len()
        invariant
            i <= parts@.len(),
            views == parts@.map_values(|p: &[u8]| p@),
            input@ == hash_input(views.subrange(0, i as int)),
        decreases parts@.len() - i,
    {
        let part = parts[i];
        let mut j: usize = 0;
        let ghost before = input@;
        while j < part.len()
            invariant
                j <= part@.len(),
                input@ == before + part@.subrange(0, j as int),
            decreases part@.len() - j,
        {
            input.push(part[j]);
            j += 1;
            assert(input@ =~= before + part@.subrange(0, j as int));
        }
        input.push(0u8);
        proof {
            assert(part@.subrange(0, part@.len() as int) =~= part@);
            assert(views.subrange(0, i + 1).drop_last() =~= views.subrange(0, i as int));
            assert(views.subrange(0, i + 1).last() == part@);
            assert(input@ =~= before + part@ + seq![0u8]);
        }
        i += 1;
    }
    assert(views.subrange(0, parts@.len() as int) =~= views);
    let digest = sha256(input.as_slice());
    let mut value: u64 = 0;
    let mut k: usize = 0;
    while k < 8
        invariant
            k <= 8,
            digest@.len() == 32,
            value == big_endian_value(digest@.subrange(0, k as int)),
            value < pow256(k as nat),
        decreases 8 - k,
    {
        let b = digest[k];
        proof {
            reveal_with_fuel(pow256, 9);
            assert(pow256(8) == 0x1_0000_0000_0000_0000);
            assert(pow256((k + 1) as nat) == pow256(k as nat) * 256);
            let p = pow256(k as nat);
            assert(pow256((k + 1) as nat) <= pow256(8)) by {
                if k + 1 < 8 {
                    assert(pow256((k + 1) as nat) < pow256(8)) by {
                        assert(pow256(7) == 0x100_0000_0000_0000);
                        assert(k + 1 <= 7);
                        assert(pow256(1) == 256);
                        assert(pow256(2) == 65536);
                        assert(pow256(3) == 0x100_0000);
                        assert(pow256(4) == 0x1_0000_0000);
                        assert(pow256(5) == 0x100_0000_0000);
                        assert(pow256(6) == 0x1_0000_0000_0000);
                    }
                }
            }
            assert((value as int) * 256 + (b as int) < p * 256) by (nonlinear_arith)
                requires
                    value < p,
                    b < 256,
            ;
            assert(digest@.subrange(0, k + 1).drop_last() =~= digest@.subrange(0, k as int));
        }
        value = value * 256 + b as u64;
        k += 1;
    }
    value
}

/// How often, in seconds, this installation refreshes node loads: between 50
/// and 70, fixed per installation.
pub open spec fn spec_load_refresh_interval(installation_id: Seq<u8>) -> nat {
    50 + spec_stable_hash(seq![installation_id, seq![114u8, 101u8, 102u8, 114u8, 101u8, 115u8, 104u8]])
        % 21
}

/// Derives the per-installation jitter for the node load refresh cadence.
pub fn load_refresh_interval_seconds(installation_id: &str) -> (r: u64)
    ensures
        r == spec_load_refresh_interval(utf8_bytes(installation_id@)),
        50 <= r <= 70,
{
    let refresh: Vec<u8> = vec![114u8, 101u8, 102u8, 114u8, 101u8, 115u8, 104u8];
    let parts: Vec<&[u8]> = vec![installation_id.as_bytes(), refresh.as_slice()];
    let hash = stable_hash(parts.as_slice());
    proof {
        assert(parts@.map_values(|p: &[u8]| p@) =~= seq![
            utf8_bytes(installation_id@),
            seq![114u8, 101u8, 102u8, 114u8, 101u8, 115u8, 104u8],
        ]);
    }
    50 + hash % 21
}


/// How many nodes a selection probes at most.
pub const MAX_AUTOMATIC_PROBES: usize = 8;

/// The nodes a selection by delay alone probes: the group's first eight, in
/// order.
pub fn delay_probe_targets(group: &SelectorGroup) -> (r: Vec<String>)
    ensures
        r@.len() == if group@.nodes.len() < MAX_AUTOMATIC_PROBES {
            group@.nodes.len()
        } else {
            MAX_AUTOMATIC_PROBES as nat
        },
        forall|i: int| 0 <= i < r@.len() ==> utf8_bytes(#[trigger] r@[i]@) == group@.nodes[i].id,
{
    let nodes = group.nodes();
    let mut targets: Vec<String> = Vec::new();
    let mut i: usize = 0;
    while i < nodes.len() && i < MAX_AUTOMATIC_PROBES
        invariant
            i <= nodes@.len(),
            i <= MAX_AUTOMATIC_PROBES,
            nodes_view(nodes@) == group@.nodes,
            targets@.len() == i,
            forall|k: int| 0 <= k < i ==> utf8_bytes(#[trigger] targets@[k]@) == group@.nodes[k].id,
        decreases nodes@.len() - i,
    {
        let id = nodes[i].id().to_string();
        targets.push(id);
        i += 1;
    }
    targets
}

/// The tie-break of a node for an installation.
pub open spec fn node_hash(installation_id: Seq<u8>, node_id: Seq<u8>) -> nat {
    spec_stable_hash(seq![installation_id, node_id])
}

/// Whether measured node `a` is at least as good a pick as `b`: it answered
/// faster, or as fast with a smaller tie-break.
pub open spec fn delay_pick_le(installation_id: Seq<u8>, a: (Seq<u8>, u32), b: (Seq<u8>, u32)) -> bool {
    a.1 < b.1 || (a.1 == b.1 && node_hash(installation_id, a.0) <= node_hash(installation_id, b.0))
}

pub open spec fn measured_view(delays: Seq<(String, u32)>, i: int) -> (Seq<u8>, u32) {
    (utf8_bytes(delays[i].0@), delays[i].1)
}

fn node_tie_break(installation_id: &str, node_id: &str) -> (r: u64)
    ensures
        r == node_hash(utf8_bytes(installation_id@), utf8_bytes(node_id@)),
{
    let parts: Vec<&[u8]> = vec![installation_id.as_bytes(), node_id.as_bytes()];
    let hash = stable_hash(parts.as_slice());
    proof {
        assert(parts@.map_values(|p: &[u8]| p@) =~= seq![
            utf8_bytes(installation_id@),
            utf8_bytes(node_id@),
        ]);
    }
    hash
}

/// Picks, from the nodes that answered a delay probe, the fastest one, ties
/// broken by the installation's stable hash; the group's default node when
/// none answered.
pub fn pick_by_delay(default_node_id: &str, installation_id: &str, delays: &[(String, u32)]) -> (r:
    String)
    ensures
        delays@.len() == 0 ==> r@ == default_node_id@,
        delays@.len() > 0 ==> exists|i: int|
            0 <= i < delays@.len() && r@ == delays@[i].0@ && forall|j: int|
                0 <= j < delays@.len() ==> delay_pick_le(
                    utf8_bytes(installation_id@),
                    #[trigger] measured_view(delays@, i),
                    measured_view(delays@, j),
                ),
{
    if delays.len() == 0 {
        return default_node_id.to_string();
    }
    let ghost inst = utf8_bytes(installation_id@);
    let mut best: usize = 0;
    let mut best_hash = node_tie_break(installation_id, delays[0].0.as_str());
    let mut i: usize = 1;
    while i < delays.len()
        invariant
            1 <= i <= delays@.len(),
            best < i,
            inst == utf8_bytes(installation_id@),
            best_hash == node_hash(inst, utf8_bytes(delays@[best as int].0@)),
            forall|j: int|
                0 <= j < i ==> delay_pick_le(
                    inst,
                    measured_view(delays@, best as int),
                    #[trigger] measured_view(delays@, j),
                ),
        decreases delays@.len() - i,
    {
        let hash = node_tie_break(installation_id, delays[i].0.as_str());
        if delays[i].1 < delays[best].1 || (delays[i].1 == delays[best].1 && hash < best_hash) {
            best = i;
            best_hash = hash;
        }
        i += 1;
    }
    let r = delays[best].0.clone();
    assert(r@ == delays@[best as int].0@);
    let ghost w = measured_view(delays@, best as int);
    assert(forall|j: int|
        0 <= j < delays@.len() ==> delay_pick_le(
            inst,
            measured_view(delays@, best as int),
            #[trigger] measured_view(delays@, j),
        ));
    r
}

/// How busy a node reported itself.
#[derive(Debug, Clone, Copy, PartialEq, Eq, Structural)]
pub enum NodeLoadState {
    Unknown,
    Idle,
    Normal,
    Busy,
    Overloaded,
}

/// One node's load report: its id, its capacity group, its state and when
/// it was measured.
#[derive(Debug)]
pub struct NodeLoad {
    pub id: String,
    pub capacity_group: String,
    pub state: NodeLoadState,
    pub updated_at: Option<u64>,
}

/// A snapshot of load reports, valid for `ttl_seconds` after `generated_at`.
#[derive(Debug)]
pub struct NodeLoadsResponse {
    pub generated_at: u64,
    pub ttl_seconds: u64,
    pub nodes: Vec<NodeLoad>,
}

/// `a + b`, or the largest `u64` where that overflows.
pub open spec fn saturating_sum(a: u64, b: u64) -> int {
    if a + b <= u64::MAX {
        a + b
    } else {
        u64::MAX as int
    }
}

/// A report is still valid at `now`: its state is unknown, or it was measured
/// no longer than `ttl` seconds before.
pub open spec fn load_fresh(load: NodeLoad, ttl: u64, now: u64) -> bool {
    load.state == NodeLoadState::Unknown || (load.updated_at matches Some(at) && now
        <= saturating_sum(at, ttl))
}

/// The key a report is filed under: its id's bytes.
pub open spec fn load_key(load: NodeLoad) -> Seq<u8> {
    utf8_bytes(load.id@)
}

/// Whether `kept` is the last valid report filed under its key among `nodes`.
pub open spec fn last_fresh_of(nodes: Seq<NodeLoad>, ttl: u64, now: u64, kept: NodeLoad) -> bool {
    exists|i: int|
        0 <= i < nodes.len() && load_fresh(#[trigger] nodes[i], ttl, now) && kept.id@ == nodes[i].id@
            && kept.capacity_group@ == nodes[i].capacity_group@ && kept.state == nodes[i].state
            && kept.updated_at == nodes[i].updated_at && forall|j: int|
            i < j < nodes.len() && load_fresh(#[trigger] nodes[j], ttl, now) ==> load_key(nodes[j])
                != load_key(nodes[i])
}

/// Whether `out` holds, once per key, the last valid report of each key of
/// `nodes` that has one.
pub open spec fn fresh_by_key(nodes: Seq<NodeLoad>, ttl: u64, now: u64, out: Seq<NodeLoad>) -> bool {
    &&& forall|a: int, b: int| 0 <= a < b < out.len() ==> load_key(#[trigger] out[a]) != load_key(
        #[trigger] out[b],
    )
    &&& forall|k: int| 0 <= k < out.len() ==> last_fresh_of(nodes, ttl, now, #[trigger] out[k])
    &&& forall|i: int|
        0 <= i < nodes.len() && load_fresh(#[trigger] nodes[i], ttl, now) ==> exists|k: int|
            0 <= k < out.len() && load_key(#[trigger] out[k]) == load_key(nodes[i])
}

proof fn lemma_fresh_step_skip(prefix: Seq<NodeLoad>, x: NodeLoad, ttl: u64, now: u64, out: Seq<NodeLoad>)
    requires
        fresh_by_key(prefix, ttl, now, out),
        !load_fresh(x, ttl, now),
    ensures
        fresh_by_key(prefix.push(x), ttl, now, out),
{
    let next = prefix.push(x);
    assert forall|k: int| 0 <= k < out.len() implies last_fresh_of(next, ttl, now, #[trigger] out[k]) by {
        assert(last_fresh_of(prefix, ttl, now, out[k]));
        let i = choose|i: int|
            0 <= i < prefix.len() && load_fresh(#[trigger] prefix[i], ttl, now) && out[k].id@
                == prefix[i].id@ && out[k].state == prefix[i].state && out[k].updated_at
                == prefix[i].updated_at && forall|j: int|
                i < j < prefix.len() && load_fresh(#[trigger] prefix[j], ttl, now) ==> load_key(
                    prefix[j],
                ) != load_key(prefix[i]);
        assert(next[i] == prefix[i]);
        assert forall|j: int| i < j < next.len() && load_fresh(#[trigger] next[j], ttl, now) implies load_key(
            next[j],
        ) != load_key(next[i]) by {
            assert(j < prefix.len());
            assert(next[j] == prefix[j]);
        }
    }
    assert forall|i: int| 0 <= i < next.len() && load_fresh(#[trigger] next[i], ttl, now) implies exists|
        k: int,
    | 0 <= k < out.len() && load_key(#[trigger] out[k]) == load_key(next[i]) by {
        assert(i < prefix.len());
        assert(next[i] == prefix[i]);
    }
}

proof fn lemma_fresh_step_replace(
    prefix: Seq<NodeLoad>,
    x: NodeLoad,
    ttl: u64,
    now: u64,
    out: Seq<NodeLoad>,
    k: int,
    y: NodeLoad,
)
    requires
        fresh_by_key(prefix, ttl, now, out),
        load_fresh(x, ttl, now),
        0 <= k < out.len(),
        load_key(out[k]) == load_key(x),
        y.id@ == x.id@,
        y.capacity_group@ == x.capacity_group@,
        y.state == x.state,
        y.updated_at == x.updated_at,
    ensures
        fresh_by_key(prefix.push(x), ttl, now, out.update(k, y)),
{
    let next = prefix.push(x);
    let after = out.update(k, y);
    let n = prefix.len() as int;
    assert(next[n] == x);
    assert forall|a: int, b: int| 0 <= a < b < after.len() implies load_key(#[trigger] after[a])
        != load_key(#[trigger] after[b]) by {
        assert(load_key(after[a]) == load_key(out[a]));
        assert(load_key(after[b]) == load_key(out[b]));
    }
    assert forall|m: int| 0 <= m < after.len() implies last_fresh_of(next, ttl, now, #[trigger] after[m]) by {
        if m == k {
            assert(load_fresh(next[n], ttl, now));
        } else {
            assert(last_fresh_of(prefix, ttl, now, out[m]));
            let i = choose|i: int|
                0 <= i < prefix.len() && load_fresh(#[trigger] prefix[i], ttl, now) && out[m].id@
                    == prefix[i].id@ && out[m].capacity_group@ == prefix[i].capacity_group@
                    && out[m].state == prefix[i].state && out[m].updated_at
                    == prefix[i].updated_at && forall|j: int|
                    i < j < prefix.len() && load_fresh(#[trigger] prefix[j], ttl, now) ==> load_key(
                        prefix[j],
                    ) != load_key(prefix[i]);
            assert(next[i] == prefix[i]);
            assert(load_key(out[m]) == load_key(prefix[i]));
            assert forall|j: int| i < j < next.len() && load_fresh(#[trigger] next[j], ttl, now) implies load_key(
                next[j],
            ) != load_key(next[i]) by {
                if j < n {
                    assert(next[j] == prefix[j]);
                } else {
                    assert(load_key(out[k]) != load_key(out[m]));
                }
            }
        }
    }
    assert forall|i: int| 0 <= i < next.len() && load_fresh(#[trigger] next[i], ttl, now) implies exists|
        q: int,
    | 0 <= q < after.len() && load_key(#[trigger] after[q]) == load_key(next[i]) by {
        if i < n {
            assert(next[i] == prefix[i]);
            let q = choose|q: int| 0 <= q < out.len() && load_key(#[trigger] out[q]) == load_key(prefix[i]);
            assert(load_key(after[q]) == load_key(out[q]));
        } else {
            assert(load_key(after[k]) == load_key(next[i]));
        }
    }
}

proof fn lemma_fresh_step_add(
    prefix: Seq<NodeLoad>,
    x: NodeLoad,
    ttl: u64,
    now: u64,
    out: Seq<NodeLoad>,
    y: NodeLoad,
)
    requires
        fresh_by_key(prefix, ttl, now, out),
        load_fresh(x, ttl, now),
        forall|k: int| 0 <= k < out.len() ==> load_key(#[trigger] out[k]) != load_key(x),
        y.id@ == x.id@,
        y.capacity_group@ == x.capacity_group@,
        y.state == x.state,
        y.updated_at == x.updated_at,
    ensures
        fresh_by_key(prefix.push(x), ttl, now, out.push(y)),
{
    let next = prefix.push(x);
    let after = out.push(y);
    let n = prefix.len() as int;
    assert(next[n] == x);
    assert(load_key(y) == load_key(x));
    assert forall|m: int| 0 <= m < after.len() implies last_fresh_of(next, ttl, now, #[trigger] after[m]) by {
        if m == out.len() {
            assert(load_fresh(next[n], ttl, now));
        } else {
            assert(after[m] == out[m]);
            assert(last_fresh_of(prefix, ttl, now, out[m]));
            let i = choose|i: int|
                0 <= i < prefix.len() && load_fresh(#[trigger] prefix[i], ttl, now) && out[m].id@
                    == prefix[i].id@ && out[m].capacity_group@ == prefix[i].capacity_group@
                    && out[m].state == prefix[i].state && out[m].updated_at
                    == prefix[i].updated_at && forall|j: int|
                    i < j < prefix.len() && load_fresh(#[trigger] prefix[j], ttl, now) ==> load_key(
                        prefix[j],
                    ) != load_key(prefix[i]);
            assert(next[i] == prefix[i]);
            assert(load_key(out[m]) == load_key(prefix[i]));
            assert forall|j: int| i < j < next.len() && load_fresh(#[trigger] next[j], ttl, now) implies load_key(
                next[j],
            ) != load_key(next[i]) by {
                if j < n {
                    assert(next[j] == prefix[j]);
                }
            }
        }
    }
    assert forall|i: int| 0 <= i < next.len() && load_fresh(#[trigger] next[i], ttl, now) implies exists|
        q: int,
    | 0 <= q < after.len() && load_key(#[trigger] after[q]) == load_key(next[i]) by {
        if i < n {
            assert(next[i] == prefix[i]);
            let q = choose|q: int| 0 <= q < out.len() && load_key(#[trigger] out[q]) == load_key(prefix[i]);
            assert(after[q] == out[q]);
        } else {
            assert(load_key(after[out.len() as int]) == load_key(next[i]));
        }
    }
}

fn copy_load(load: &NodeLoad) -> (r: NodeLoad)
    ensures
        r.id@ == load.id@,
        r.capacity_group@ == load.capacity_group@,
        r.state == load.state,
        r.updated_at == load.updated_at,
{
    NodeLoad {
        id: load.id.clone(),
        capacity_group: load.capacity_group.clone(),
        state: load.state,
        updated_at: load.updated_at,
    }
}

/// The position in `out` of the report filed under `key`, if any.
fn find_load(out: &Vec<NodeLoad>, key: &[u8]) -> (r: Option<usize>)
    ensures
        match r {
            Some(k) => k < out@.len() && load_key(out@[k as int]) == key@,
            None => forall|k: int| 0 <= k < out@.len() ==> load_key(#[trigger] out@[k]) != key@,
        },
{
    let mut k: usize = 0;
    while k < out.len()
        invariant
            k <= out@.len(),
            forall|m: int| 0 <= m < k ==> load_key(#[trigger] out@[m]) != key@,
        decreases out@.len() - k,
    {
        if bytes_equal(out[k].id.as_str().as_bytes(), key) {
            return Some(k);
        }
        k += 1;
    }
    None
}

/// The still-valid load reports of `snapshot`, filed by node id: nothing when
/// there is no snapshot or the snapshot as a whole is older than its TTL;
/// otherwise each report of unknown state, or measured within the TTL, with
/// the last such report of an id kept.
pub fn fresh_loads(snapshot: Option<&NodeLoadsResponse>, now: u64) -> (r: Vec<NodeLoad>)
    ensures
        match snapshot {
            None => r@.len() == 0,
            Some(s) => if now > saturating_sum(s.generated_at, s.ttl_seconds) {
                r@.len() == 0
            } else {
                fresh_by_key(s.nodes@, s.ttl_seconds, now, r@)
            },
        },
{
    let mut out: Vec<NodeLoad> = Vec::new();
    let s = match snapshot {
        Some(s) => s,
        None => return out,
    };
    let expires = s.generated_at.saturating_add(s.ttl_seconds);
    if now > expires {
        return out;
    }
    let ghost nodes = s.nodes@;
    let ttl = s.ttl_seconds;
    let mut i: usize = 0;
    while i < s.nodes.len()
        invariant
            i <= nodes.len(),
            nodes == s.nodes@,
            ttl == s.ttl_seconds,
            fresh_by_key(nodes.take(i as int), ttl, now, out@),
        decreases nodes.len() - i,
    {
        let load = &s.nodes[i];
        let fresh = match load.state {
            NodeLoadState::Unknown => true,
            _ => match load.updated_at {
                Some(at) => now <= at.saturating_add(ttl),
                None => false,
            },
        };
        let ghost before = out@;
        let ghost prefix = nodes.take(i as int);
        let ghost next = nodes.take(i as int + 1);
        proof {
            assert(next =~= prefix.push(nodes[i as int]));
            assert(fresh == load_fresh(nodes[i as int], ttl, now));
        }
        if fresh {
            let key = load.id.as_str().as_bytes();
            let copy = copy_load(load);
            match find_load(&out, key) {
                Some(k) => {
                    out.set(k, copy);
                    proof {
                        lemma_fresh_step_replace(prefix, nodes[i as int], ttl, now, before, k as int, copy);
                    }
                },
                None => {
                    out.push(copy);
                    proof {
                        lemma_fresh_step_add(prefix, nodes[i as int], ttl, now, before, copy);
                    }
                },
            }
        } else {
            proof {
                lemma_fresh_step_skip(prefix, nodes[i as int], ttl, now, before);
            }
        }
        i += 1;
    }
    proof {
        assert(nodes.take(nodes.len() as int) =~= nodes);
    }
    out
}

} // verus!
