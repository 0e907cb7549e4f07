use vstd::prelude::*;
use vstd::string::*;

use crate::block::{block_hash, Block, BlockView, MarketData};
use crate::validator::TransformResult;

verus! {

/// The protocols a node can run.
#[derive(Debug, Clone, Copy, PartialEq, Eq, Structural)]
pub enum ConsensusType {
    PBFT,
    Gossip,
    Eventual,
    Quorumless,
    FlexiblePaxos,
}

/// What `str::to_lowercase` returns for a text.
pub uninterp spec fn lower_of(s: Seq<char>) -> Seq<char>;

/// Relies on `str::to_lowercase`: the lower-case form depends on the
/// characters alone.
#[verifier::external_body]
fn lowercase(s: &str) -> (r: String)
    ensures
        r@ == lower_of(s@),
{
    s.to_lowercase()
}

/// The protocol a lower-case name or menu number selects.
pub open spec fn consensus_for(name: Seq<char>) -> Option<ConsensusType> {
    if name == "pbft"@ || name == "1"@ {
        Some(ConsensusType::PBFT)
    } else if name == "gossip"@ || name == "2"@ {
        Some(ConsensusType::Gossip)
    } else if name == "eventual"@ || name == "3"@ {
        Some(ConsensusType::Eventual)
    } else if name == "quorumless"@ || name == "4"@ {
        Some(ConsensusType::Quorumless)
    } else if name == "flexible_paxos"@ || name == "flexiblepaxos"@ || name == "fpaxos"@ || name
        == "paxos"@ || name == "5"@ {
        Some(ConsensusType::FlexiblePaxos)
    } else {
        None
    }
}

fn same_text(a: &String, b: &str) -> (r: bool)
    ensures
        r == (a@ == b@),
{
    let owned = b.to_owned();
    *a == owned
}

impl ConsensusType {
    /// The protocol named by an already lower-case `name`.
    pub fn from_lowercase(name: &String) -> (r: Option<ConsensusType>)
        ensures
            r == consensus_for(name@),
    {
        proof {
            reveal_strlit("pbft");
            reveal_strlit("1");
            reveal_strlit("gossip");
            reveal_strlit("2");
            reveal_strlit("eventual");
            reveal_strlit("3");
            reveal_strlit("quorumless");
            reveal_strlit("4");
            reveal_strlit("flexible_paxos");
            reveal_strlit("flexiblepaxos");
            reveal_strlit("fpaxos");
            reveal_strlit("paxos");
            reveal_strlit("5");
        }
        if same_text(name, "pbft") || same_text(name, "1") {
            Some(ConsensusType::PBFT)
        } else if same_text(name, "gossip") || same_text(name, "2") {
            Some(ConsensusType::Gossip)
        } else if same_text(name, "eventual") || same_text(name, "3") {
            Some(ConsensusType::Eventual)
        } else if same_text(name, "quorumless") || same_text(name, "4") {
            Some(ConsensusType::Quorumless)
        } else if same_text(name, "flexible_paxos") || same_text(name, "flexiblepaxos")
            || same_text(name, "fpaxos") || same_text(name, "paxos") || same_text(name, "5") {
            Some(ConsensusType::FlexiblePaxos)
        } else {
            None
        }
    }

    /// The protocol named by `s`, in any letter case.
    pub fn from_str(s: &str) -> (r: Option<ConsensusType>)
        ensures
            r == consensus_for(lower_of(s@)),
    {
        let lower = lowercase(s);
        Self::from_lowercase(&lower)
    }

    /// The protocol's display name.
    pub open spec fn spec_name(&self) -> Seq<char> {
        match self {
            ConsensusType::PBFT => "PBFT"@,
            ConsensusType::Gossip => "Gossip"@,
            ConsensusType::Eventual => "Eventual Consistency"@,
            ConsensusType::Quorumless => "Quorum-less (Weighted)"@,
            ConsensusType::FlexiblePaxos => "Flexible Paxos"@,
        }
    }

    pub fn name(&self) -> (r: &'static str)
        ensures
            r@ == self.spec_name(),
    {
        proof {
            reveal_strlit("PBFT");
            reveal_strlit("Gossip");
            reveal_strlit("Eventual Consistency");
            reveal_strlit("Quorum-less (Weighted)");
            reveal_strlit("Flexible Paxos");
        }
        match self {
            ConsensusType::PBFT => "PBFT",
            ConsensusType::Gossip => "Gossip",
            ConsensusType::Eventual => "Eventual Consistency",
            ConsensusType::Quorumless => "Quorum-less (Weighted)",
            ConsensusType::FlexiblePaxos => "Flexible Paxos",
        }
    }

    /// One line on how the protocol decides.
    pub open spec fn spec_description(&self) -> Seq<char> {
        match self {
            ConsensusType::PBFT => "Byzantine fault tolerance with majority voting (2f+1 out of 3f+1)"@,
            ConsensusType::Gossip => "Epidemic/gossip protocol, no majority voting required"@,
            ConsensusType::Eventual => "Time-based commitment, no majority voting required"@,
            ConsensusType::Quorumless => "Weighted voting based on node reputation, no majority voting"@,
            ConsensusType::FlexiblePaxos => "Flexible quorum Paxos: Q1 (phase-1) intersects with previous Q2 (phase-2)"@,
        }
    }

    pub fn description(&self) -> (r: &'static str)
        ensures
            r@ == self.spec_description(),
    {
        proof {
            reveal_strlit("Byzantine fault tolerance with majority voting (2f+1 out of 3f+1)");
            reveal_strlit("Epidemic/gossip protocol, no majority voting required");
            reveal_strlit("Time-based commitment, no majority voting required");
            reveal_strlit("Weighted voting based on node reputation, no majority voting");
            reveal_strlit("Flexible quorum Paxos: Q1 (phase-1) intersects with previous Q2 (phase-2)");
        }
        match self {
            ConsensusType::PBFT => "Byzantine fault tolerance with majority voting (2f+1 out of 3f+1)",
            ConsensusType::Gossip => "Epidemic/gossip protocol, no majority voting required",
            ConsensusType::Eventual => "Time-based commitment, no majority voting required",
            ConsensusType::Quorumless => "Weighted voting based on node reputation, no majority voting",
            ConsensusType::FlexiblePaxos => "Flexible quorum Paxos: Q1 (phase-1) intersects with previous Q2 (phase-2)",
        }
    }
}

/// The value of a text of decimal digits.
pub open spec fn digits_value(s: Seq<char>) -> nat
    decreases s.len(),
{
    if s.len() == 0 {
        0
    } else {
        10 * digits_value(s.drop_last()) + ((s.last() as u32 - '0' as u32) as nat)
    }
}

/// A non-empty text of the digits `0`-`9` only.
pub open spec fn all_digits(s: Seq<char>) -> bool {
    s.len() > 0 && forall|i: int| 0 <= i < s.len() ==> '0' <= #[trigger] s[i] && s[i] <= '9'
}

/// The number a decimal text spells, when it spells one no larger than `max`.
pub fn parse_decimal(s: &str, max: u64) -> (r: Option<u64>)
    ensures
        r matches Some(v) <==> (all_digits(s@) && digits_value(s@) <= max),
        r matches Some(v) ==> v == digits_value(s@),
{
    let n = s.unicode_len();
    if n == 0 {
        return None;
    }
    let mut value: u64 = 0;
    let mut i: usize = 0;
    while i < n
        invariant
            n == s@.len(),
            i <= n,
            forall|k: int| 0 <= k < i ==> '0' <= #[trigger] s@[k] && s@[k] <= '9',
            value == digits_value(s@.subrange(0, i as int)),
            value <= max,
        decreases n - i,
    {
        let c = s.get_char(i);
        proof {
            assert(s@.subrange(0, i + 1).drop_last() =~= s@.subrange(0, i as int));
        }
        if c < '0' || c > '9' {
            return None;
        }
        let d = (c as u32 - '0' as u32) as u64;
        if d > max || value > (max - d) / 10 {
            proof {
                lemma_prefix_value_grows(s@, (i + 1) as int);
                if all_digits(s@) {
                    let v = digits_value(s@.subrange(0, i + 1));
                    assert(v > max) by (nonlinear_arith)
                        requires
                            v == 10 * value + d,
                            d > max || (d <= max && value > (max - d) / 10),
                    ;
                    lemma_prefix_bound(s@, (i + 1) as int);
                }
            }
            return None;
        }
        value = value * 10 + d;
        i = i + 1;
    }
    proof {
        assert(s@.subrange(0, n as int) =~= s@);
    }
    Some(value)
}

/// Why the command line cannot start a node.
#[derive(Debug, Clone, Copy, PartialEq, Eq, Structural)]
pub enum ConfigError {
    /// The default port `8000 + node_id` does not fit in a port number.
    PortOutOfRange,
}

/// What the command line asks of a node.
#[derive(Debug, Clone, Copy, PartialEq, Eq, Structural)]
pub struct CliOptions {
    pub node_id: usize,
    pub port: u16,
    pub offline: bool,
    pub consensus: Option<ConsensusType>,
}

/// The first port of the cluster; node `i` listens on `BASE_PORT + i` by default.
pub const BASE_PORT: u16 = 8000;

/// The protocol chosen by the arguments from position `i` on: the first
/// `--consensus=NAME`, or `--consensus NAME` / `-c NAME`, that names one.
pub open spec fn selected_from(args: Seq<Seq<char>>, i: int) -> Option<ConsensusType>
    decreases args.len() - i,
{
    if i < 0 || i >= args.len() {
        None
    } else {
        let a = args[i];
        let inline = if a.len() >= 12 && a.subrange(0, 12) == "--consensus="@ {
            consensus_for(lower_of(a.subrange(12, a.len() as int)))
        } else {
            None
        };
        let separate = if (a == "--consensus"@ || a == "-c"@) && i + 1 < args.len() {
            consensus_for(lower_of(args[i + 1]))
        } else {
            None
        };
        if inline is Some {
            inline
        } else if separate is Some {
            separate
        } else {
            selected_from(args, i + 1)
        }
    }
}

pub open spec fn arg_views(args: Seq<String>) -> Seq<Seq<char>> {
    args.map_values(|a: String| a@)
}

fn starts_with_text(a: &String, prefix: &str) -> (r: bool)
    ensures
        r == (a@.len() >= prefix@.len() && a@.subrange(0, prefix@.len() as int) == prefix@),
{
    let s = a.as_str();
    let n = prefix.unicode_len();
    if s.unicode_len() < n {
        return false;
    }
    let head = s.substring_char(0, n);
    let owned = head.to_owned();
    let p = prefix.to_owned();
    owned == p
}

/// Parses `program [node_id] [port] [--offline|-o] [--consensus=NAME|-c NAME]`.
/// A missing or unreadable node id is 0; a missing or unreadable port is
/// `8000 + node_id`, refused when that is no port number.
pub fn parse_cli(args: &Vec<String>) -> (r: Result<CliOptions, ConfigError>)
    ensures
        ({
            let node = if args@.len() > 1 && all_digits(args@[1]@) && digits_value(args@[1]@)
                <= usize::MAX {
                digits_value(args@[1]@)
            } else {
                0
            };
            let explicit_port = args@.len() > 2 && all_digits(args@[2]@) && digits_value(args@[2]@)
                <= u16::MAX;
            &&& (explicit_port || node + BASE_PORT <= u16::MAX) <==> r is Ok
            &&& r matches Ok(o) ==> {
                &&& o.node_id == node
                &&& o.port as int == if explicit_port {
                    digits_value(args@[2]@) as int
                } else {
                    node + BASE_PORT
                }
                &&& o.offline == (exists|i: int|
                    0 <= i < args@.len() && (args@[i]@ == "--offline"@ || args@[i]@ == "-o"@))
                &&& o.consensus == selected_from(arg_views(args@), 0)
            }
        }),
{
    let node_id: usize = if args.len() > 1 {
        match parse_decimal(args[1].as_str(), usize::MAX as u64) {
            Some(v) => v as usize,
            None => 0,
        }
    } else {
        0
    };
    let explicit: Option<u64> = if args.len() > 2 {
        parse_decimal(args[2].as_str(), u16::MAX as u64)
    } else {
        None
    };
    let port: u16 = match explicit {
        Some(p) => p as u16,
        None => {
            if node_id > (u16::MAX - BASE_PORT) as usize {
                return Err(ConfigError::PortOutOfRange);
            }
            BASE_PORT + node_id as u16
        },
    };
    proof {
        reveal_strlit("--offline");
        reveal_strlit("-o");
        reveal_strlit("--consensus=");
        reveal_strlit("--consensus");
        reveal_strlit("-c");
    }
    let mut offline = false;
    let mut consensus: Option<ConsensusType> = None;
    let ghost views = arg_views(args@);
    let mut i: usize = args.len();
    while i > 0
        invariant
            i <= args@.len(),
            views == arg_views(args@),
            offline == (exists|k: int|
                i <= k < args@.len() && (args@[k]@ == "--offline"@ || args@[k]@ == "-o"@)),
            consensus == selected_from(views, i as int),
        decreases i,
    {
        let k = i - 1;
        let a = &args[k];
        proof {
            reveal_strlit("--offline");
            reveal_strlit("-o");
            reveal_strlit("--consensus=");
            reveal_strlit("--consensus");
            reveal_strlit("-c");
        }
        if same_text(a, "--offline") || same_text(a, "-o") {
            offline = true;
        }
        let inline = if starts_with_text(a, "--consensus=") {
            let s = a.as_str();
            let rest = s.substring_char(12, s.unicode_len());
            ConsensusType::from_str(rest)
        } else {
            None
        };
        let separate = if (same_text(a, "--consensus") || same_text(a, "-c")) && k + 1 < args.len() {
            ConsensusType::from_str(args[k + 1].as_str())
        } else {
            None
        };
        if inline.is_some() {
            consensus = inline;
        } else if separate.is_some() {
            consensus = separate;
        }
        proof {
            assert(views[k as int] == args@[k as int]@);
            if k + 1 < args@.len() {
                assert(views[k + 1] == args@[k + 1]@);
            }
        }
        i = k;
    }
    Ok(CliOptions { node_id, port, offline, consensus })
}

/// Where the driver stands: the last block it committed.
#[derive(Debug, Clone)]
pub struct DriverState {
    pub last_hash: String,
    pub last_index: u64,
    pub last_timestamp: Option<i64>,
}

/// The previous hash of the first block.
pub const GENESIS_HASH: &'static str = "0000_genesis_hash";

impl DriverState {
    /// Continues after `latest`, the highest stored block, or starts at genesis.
    pub fn resume(latest: Option<Block>) -> (r: DriverState)
        ensures
            latest matches Some(b) ==> r.last_hash@ == b.hash@ && r.last_index == b.index
                && r.last_timestamp == Some(b.timestamp),
            latest is None ==> r.last_hash@ == GENESIS_HASH@ && r.last_index == 0
                && r.last_timestamp is None,
    {
        match latest {
            Some(b) => DriverState { last_hash: b.hash, last_index: b.index, last_timestamp: Some(b.timestamp) },
            None => DriverState { last_hash: GENESIS_HASH.to_owned(), last_index: 0, last_timestamp: None },
        }
    }

    /// The next block for a validated observation, stamped `now` and
    /// hashed; `None` once the index space is exhausted.
    pub fn next_block(&self, observation: &TransformResult, now: i64) -> (r: Option<Block>)
        ensures
            self.last_index == u64::MAX ==> r is None,
            self.last_index < u64::MAX ==> (r matches Some(b) && b.index == self.last_index + 1
                && b.timestamp == now && b@.previous_hash == self.last_hash@ && b.nonce == 0
                && b.data@.len() == 1 && b.data@[0]@.asset == observation.asset@
                && b.data@[0]@.price_cents == observation.price_cents && b.data@[0]@.source
                == observation.source@ && b.data@[0]@.timestamp == observation.timestamp
                && b@.hash == block_hash(b@)),
    {
        if self.last_index == u64::MAX {
            return None;
        }
        let mut data: Vec<MarketData> = Vec::new();
        data.push(MarketData {
            asset: observation.asset.clone(),
            price_cents: observation.price_cents,
            source: observation.source.clone(),
            timestamp: observation.timestamp,
        });
        let mut block = Block {
            index: self.last_index + 1,
            timestamp: now,
            data,
            previous_hash: self.last_hash.clone(),
            hash: String::new(),
            nonce: 0,
        };
        block.calculate_hash_with_nonce();
        Some(block)
    }

    /// Moves past a committed block.
    pub fn commit(&mut self, block: &Block)
        ensures
            final(self).last_hash@ == block.hash@,
            final(self).last_index == block.index,
            final(self).last_timestamp == Some(block.timestamp),
    {
        self.last_hash = block.hash.clone();
        self.last_index = block.index;
        self.last_timestamp = Some(block.timestamp);
    }
}

/// The value of a digit text is at least the value of any of its prefixes.
proof fn lemma_prefix_bound(s: Seq<char>, i: int)
    requires
        0 <= i <= s.len(),
        forall|k: int| 0 <= k < s.len() ==> '0' <= #[trigger] s[k] && s[k] <= '9',
    ensures
        digits_value(s.subrange(0, i)) <= digits_value(s),
    decreases s.len() - i,
{
    if i < s.len() {
        lemma_prefix_bound(s, i + 1);
        lemma_prefix_value_grows(s, i + 1);
    } else {
        assert(s.subrange(0, i) =~= s);
    }
}

proof fn lemma_prefix_value_grows(s: Seq<char>, i: int)
    requires
        1 <= i <= s.len(),
    ensures
        digits_value(s.subrange(0, i)) == 10 * digits_value(s.subrange(0, i - 1)) + ((s[i - 1] as u32
            - '0' as u32) as nat),
{
    assert(s.subrange(0, i).drop_last() =~= s.subrange(0, i - 1));
}

} // verus!
