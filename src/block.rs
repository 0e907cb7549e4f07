use sha2::Digest;
use vstd::prelude::*;
use vstd::string::*;

use crate::encoding::{
    decimal, hex_of, json_quote, lemma_hex_len, json_quoted, push_decimal, push_hex, push_signed_decimal,
    signed_decimal,
};

verus! {

/// One market observation. The price is held in hundredths of the quote
/// currency, so it is finite and non-negative by construction.
#[derive(Debug, Clone)]
pub struct MarketData {
    pub asset: String,
    pub price_cents: u64,
    pub source: String,
    pub timestamp: i64,
}

pub struct MarketDataView {
    pub asset: Seq<char>,
    pub price_cents: u64,
    pub source: Seq<char>,
    pub timestamp: i64,
}

impl View for MarketData {
    type V = MarketDataView;

    open spec fn view(&self) -> MarketDataView {
        MarketDataView {
            asset: self.asset@,
            price_cents: self.price_cents,
            source: self.source@,
            timestamp: self.timestamp,
        }
    }
}

/// A hash-linked ledger entry.
#[derive(Debug, Clone)]
pub struct Block {
    pub index: u64,
    pub timestamp: i64,
    pub data: Vec<MarketData>,
    pub previous_hash: String,
    pub hash: String,
    pub nonce: u64,
}

pub struct BlockView {
    pub index: u64,
    pub timestamp: i64,
    pub data: Seq<MarketDataView>,
    pub previous_hash: Seq<char>,
    pub hash: Seq<char>,
    pub nonce: u64,
}

impl View for Block {
    type V = BlockView;

    open spec fn view(&self) -> BlockView {
        BlockView {
            index: self.index,
            timestamp: self.timestamp,
            data: self.data@.map_values(|m: MarketData| m@),
            previous_hash: self.previous_hash@,
            hash: self.hash@,
            nonce: self.nonce,
        }
    }
}

/// A price in hundredths, written with two decimals (`50000.00`).
pub open spec fn price_text(cents: u64) -> Seq<char> {
    decimal((cents / 100) as nat) + seq!['.'] + decimal(((cents % 100) / 10) as nat) + decimal(
        (cents % 10) as nat,
    )
}

/// The JSON object for one observation, fields in declaration order.
pub open spec fn market_data_json(m: MarketDataView) -> Seq<char> {
    "{\"asset\":"@ + json_quoted(m.asset) + ",\"price\":"@ + price_text(m.price_cents)
        + ",\"source\":"@ + json_quoted(m.source) + ",\"timestamp\":"@ + signed_decimal(
        m.timestamp as int,
    ) + "}"@
}

/// The comma-separated JSON objects of a sequence of observations.
pub open spec fn market_items_json(s: Seq<MarketDataView>) -> Seq<char>
    decreases s.len(),
{
    if s.len() == 0 {
        Seq::empty()
    } else if s.len() == 1 {
        market_data_json(s[0])
    } else {
        market_items_json(s.drop_last()) + ","@ + market_data_json(s.last())
    }
}

/// The JSON array of a sequence of observations.
pub open spec fn market_list_json(s: Seq<MarketDataView>) -> Seq<char> {
    "["@ + market_items_json(s) + "]"@
}

/// The text that is hashed: `index || timestamp || JSON(data) || previous_hash || nonce`.
pub open spec fn hash_input(b: BlockView) -> Seq<char> {
    decimal(b.index as nat) + signed_decimal(b.timestamp as int) + market_list_json(b.data)
        + b.previous_hash + decimal(b.nonce as nat)
}

/// The SHA-256 digest of the UTF-8 encoding of a text.
pub uninterp spec fn sha256_digest(s: Seq<char>) -> Seq<u8>;

/// The content hash of a block: lower-case hex of SHA-256 over `hash_input`.
pub open spec fn block_hash(b: BlockView) -> Seq<char> {
    hex_of(sha256_digest(hash_input(b)))
}

/// Relies on `sha2::Sha256::digest` over the UTF-8 bytes of `s`: the digest
/// depends on the text alone and is 32 bytes long (`OutputSize = U32`).
#[verifier::external_body]
fn sha256(s: &str) -> (r: Vec<u8>)
    ensures
        r@ == sha256_digest(s@),
        r@.len() == 32,
{
    sha2::Sha256::digest(s.as_bytes()).to_vec()
}

/// Appends the two-decimal rendering of a price in hundredths.
pub fn push_price(out: &mut String, cents: u64)
    ensures
        final(out)@ == old(out)@ + price_text(cents),
{
    push_decimal(out, cents / 100);
    proof {
        reveal_strlit(".");
    }
    out.append(".");
    push_decimal(out, (cents % 100) / 10);
    push_decimal(out, cents % 10);
    assert(final(out)@ =~= old(out)@ + price_text(cents));
}

impl MarketData {
    /// Appends the JSON object of this observation.
    pub fn push_json(&self, out: &mut String)
        ensures
            final(out)@ == old(out)@ + market_data_json(self@),
    {
        proof {
            reveal_strlit("{\"asset\":");
            reveal_strlit(",\"price\":");
            reveal_strlit(",\"source\":");
            reveal_strlit(",\"timestamp\":");
            reveal_strlit("}");
        }
        out.append("{\"asset\":");
        let a = json_quote(self.asset.as_str());
        out.append(a.as_str());
        out.append(",\"price\":");
        push_price(out, self.price_cents);
        out.append(",\"source\":");
        let s = json_quote(self.source.as_str());
        out.append(s.as_str());
        out.append(",\"timestamp\":");
        push_signed_decimal(out, self.timestamp);
        out.append("}");
        assert(final(out)@ =~= old(out)@ + market_data_json(self@));
    }

    /// A field-by-field copy.
    pub fn duplicate(&self) -> (r: MarketData)
        ensures
            r@ == self@,
    {
        MarketData {
            asset: self.asset.clone(),
            price_cents: self.price_cents,
            source: self.source.clone(),
            timestamp: self.timestamp,
        }
    }
}

/// Appends the JSON array of `data`.
pub fn push_market_list_json(out: &mut String, data: &Vec<MarketData>)
    ensures
        final(out)@ == old(out)@ + market_list_json(data@.map_values(|m: MarketData| m@)),
{
    let ghost start = out@;
    let ghost views = data@.map_values(|m: MarketData| m@);
    proof {
        reveal_strlit("[");
        reveal_strlit(",");
        reveal_strlit("]");
    }
    out.append("[");
    let mut i: usize = 0;
    while i < data.len()
        invariant
            i <= data@.len(),
            views == data@.map_values(|m: MarketData| m@),
            out@ == start + "["@ + market_items_json(views.subrange(0, i as int)),
        decreases data@.len() - i,
    {
        let ghost before = out@;
        if i > 0 {
            out.append(",");
        }
        data[i].push_json(out);
        proof {
            let next = views.subrange(0, i + 1);
            assert(next.drop_last() =~= views.subrange(0, i as int));
            assert(next.last() == data@[i as int]@);
            if i == 0 {
                assert(views.subrange(0, 0) =~= Seq::<MarketDataView>::empty());
                assert(next.len() == 1);
            }
            assert(out@ =~= start + "["@ + market_items_json(next));
        }
        i = i + 1;
    }
    out.append("]");
    assert(views.subrange(0, data@.len() as int) =~= views);
    assert(out@ =~= start + market_list_json(views));
}

impl Block {
    /// The text over which the content hash is taken.
    pub fn hash_text(&self) -> (r: String)
        ensures
            r@ == hash_input(self@),
    {
        let mut out = String::new();
        push_decimal(&mut out, self.index);
        push_signed_decimal(&mut out, self.timestamp);
        push_market_list_json(&mut out, &self.data);
        out.append(self.previous_hash.as_str());
        push_decimal(&mut out, self.nonce);
        assert(out@ =~= hash_input(self@));
        out
    }

    /// SHA-256 over `index || timestamp || JSON(data) || previous_hash || nonce`,
    /// as 64 lower-case hexadecimal digits.
    pub fn calculate_hash(&self) -> (r: String)
        ensures
            r@ == block_hash(self@),
            r@.len() == 64,
    {
        let text = self.hash_text();
        let digest = sha256(text.as_str());
        let mut out = String::new();
        push_hex(&mut out, &digest);
        assert(out@ =~= block_hash(self@));
        proof {
            lemma_hex_len(digest@);
        }
        out
    }

    /// Stores the recomputed content hash in `hash`; every other field is kept.
    pub fn calculate_hash_with_nonce(&mut self)
        ensures
            final(self)@ == (BlockView { hash: block_hash(old(self)@), ..old(self)@ }),
    {
        let h = self.calculate_hash();
        self.hash = h;
    }

    /// A field-by-field copy.
    pub fn duplicate(&self) -> (r: Block)
        ensures
            r@ == self@,
    {
        let mut data: Vec<MarketData> = Vec::new();
        let mut i: usize = 0;
        while i < self.data.len()
            invariant
                i <= self.data@.len(),
                data@.len() == i,
                forall|k: int| 0 <= k < i ==> #[trigger] data@[k]@ == self.data@[k]@,
            decreases self.data@.len() - i,
        {
            data.push(self.data[i].duplicate());
            i = i + 1;
        }
        let r = Block {
            index: self.index,
            timestamp: self.timestamp,
            data,
            previous_hash: self.previous_hash.clone(),
            hash: self.hash.clone(),
            nonce: self.nonce,
        };
        assert(r@.data =~= self@.data);
        r
    }
}

} // verus!
