//! The control messages sent to the feed, as compact JSON text.
use vstd::prelude::*;

use crate::text::{nat_text, push_nat, push_str, string_of, texts};

verus! {

/// The most symbols named by one subscription message.
pub const MAX_SUBSCRIPTION_SIZE: usize = 500;

pub open spec fn int_text(n: int) -> Seq<char> {
    if n < 0 {
        seq!['-'] + nat_text((-n) as nat)
    } else {
        nat_text(n as nat)
    }
}

pub open spec fn quoted(s: Seq<char>) -> Seq<char> {
    seq!['"'] + s + seq!['"']
}

/// The strings quoted and separated by commas.
pub open spec fn quoted_list(fs: Seq<Seq<char>>) -> Seq<char>
    decreases fs.len(),
{
    if fs.len() == 0 {
        Seq::empty()
    } else if fs.len() == 1 {
        quoted(fs[0])
    } else {
        quoted_list(fs.drop_last()) + seq![','] + quoted(fs.last())
    }
}

pub open spec fn setup_text() -> Seq<char> {
    "{\"type\":\"SETUP\",\"channel\":0,\"keepaliveTimeout\":60,\"acceptKeepaliveTimeout\":60,\"version\":\"0.1-js/1.0.0\"}"@
}

pub open spec fn auth_text(token: Seq<char>) -> Seq<char> {
    "{\"type\":\"AUTH\",\"channel\":0,\"token\":\""@ + token + "\"}"@
}

pub open spec fn channel_request_text() -> Seq<char> {
    "{\"type\":\"CHANNEL_REQUEST\",\"channel\":1,\"service\":\"FEED\",\"parameters\":{\"contract\":\"AUTO\"}}"@
}

pub open spec fn keepalive_text() -> Seq<char> {
    "{\"type\":\"KEEPALIVE\",\"channel\":0}"@
}

pub open spec fn feed_setup_text(channel: int, name: Seq<char>, fields: Seq<Seq<char>>) -> Seq<
    char,
> {
    "{\"type\":\"FEED_SETUP\",\"channel\":"@ + int_text(channel)
        + ",\"acceptAggregationPeriod\":10,\"acceptDataFormat\":\"COMPACT\",\"acceptEventFields\":{\""@
        + name + "\":["@ + quoted_list(fields) + "]}}"@
}

pub open spec fn subscription_entry(name: Seq<char>, symbol: Seq<char>) -> Seq<char> {
    "{\"type\":\""@ + name + "\",\"symbol\":\""@ + symbol + "\"}"@
}

/// One subscription entry per symbol, separated by commas.
pub open spec fn entries_list(name: Seq<char>, symbols: Seq<Seq<char>>) -> Seq<char>
    decreases symbols.len(),
{
    if symbols.len() == 0 {
        Seq::empty()
    } else if symbols.len() == 1 {
        subscription_entry(name, symbols[0])
    } else {
        entries_list(name, symbols.drop_last()) + seq![','] + subscription_entry(
            name,
            symbols.last(),
        )
    }
}

pub open spec fn subscription_text(channel: int, name: Seq<char>, symbols: Seq<Seq<char>>) -> Seq<
    char,
> {
    "{\"type\":\"FEED_SUBSCRIPTION\",\"channel\":"@ + int_text(channel) + ",\"add\":["@
        + entries_list(name, symbols) + "]}"@
}

/// How many subscription messages `n` symbols take.
pub open spec fn chunk_count(n: nat) -> nat {
    ((n + MAX_SUBSCRIPTION_SIZE - 1) as int / MAX_SUBSCRIPTION_SIZE as int) as nat
}

/// The `k`-th run of at most `MAX_SUBSCRIPTION_SIZE` consecutive symbols.
pub open spec fn chunk(symbols: Seq<Seq<char>>, k: int) -> Seq<Seq<char>> {
    let start = k * MAX_SUBSCRIPTION_SIZE;
    let end = if start + MAX_SUBSCRIPTION_SIZE < symbols.len() {
        start + MAX_SUBSCRIPTION_SIZE
    } else {
        symbols.len() as int
    };
    symbols.subrange(start, end)
}

/// The subscription messages for `symbols`, one per chunk, in order.
pub open spec fn subscription_texts(channel: int, name: Seq<char>, symbols: Seq<Seq<char>>) -> Seq<
    Seq<char>,
> {
    Seq::new(chunk_count(symbols.len()), |k: int| subscription_text(channel, name, chunk(symbols, k)))
}

fn push_int(out: &mut Vec<char>, n: i32)
    ensures
        final(out)@ == old(out)@ + int_text(n as int),
{
    if n < 0 {
        out.push('-');
        let m: u64 = (-(n as i64)) as u64;
        push_nat(out, m);
    } else {
        push_nat(out, n as u64);
    }
    assert(final(out)@ =~= old(out)@ + int_text(n as int));
}

pub fn setup_message() -> (r: String)
    ensures
        r@ == setup_text(),
{
    let mut out: Vec<char> = Vec::new();
    push_str(
        &mut out,
        "{\"type\":\"SETUP\",\"channel\":0,\"keepaliveTimeout\":60,\"acceptKeepaliveTimeout\":60,\"version\":\"0.1-js/1.0.0\"}",
    );
    assert(out@ =~= setup_text());
    string_of(&out)
}

pub fn auth_message(token: &str) -> (r: String)
    ensures
        r@ == auth_text(token@),
{
    let mut out: Vec<char> = Vec::new();
    push_str(&mut out, "{\"type\":\"AUTH\",\"channel\":0,\"token\":\"");
    push_str(&mut out, token);
    push_str(&mut out, "\"}");
    assert(out@ =~= auth_text(token@));
    string_of(&out)
}

pub fn channel_request_message() -> (r: String)
    ensures
        r@ == channel_request_text(),
{
    let mut out: Vec<char> = Vec::new();
    push_str(
        &mut out,
        "{\"type\":\"CHANNEL_REQUEST\",\"channel\":1,\"service\":\"FEED\",\"parameters\":{\"contract\":\"AUTO\"}}",
    );
    assert(out@ =~= channel_request_text());
    string_of(&out)
}

pub fn keepalive_message() -> (r: String)
    ensures
        r@ == keepalive_text(),
{
    let mut out: Vec<char> = Vec::new();
    push_str(&mut out, "{\"type\":\"KEEPALIVE\",\"channel\":0}");
    assert(out@ =~= keepalive_text());
    string_of(&out)
}

fn push_quoted(out: &mut Vec<char>, s: &str)
    ensures
        final(out)@ == old(out)@ + quoted(s@),
{
    out.push('"');
    push_str(out, s);
    out.push('"');
    assert(final(out)@ =~= old(out)@ + quoted(s@));
}

pub fn feed_setup_message(channel: i32, name: &str, fields: &[String]) -> (r: String)
    ensures
        r@ == feed_setup_text(channel as int, name@, texts(fields@)),
{
    let mut out: Vec<char> = Vec::new();
    push_str(&mut out, "{\"type\":\"FEED_SETUP\",\"channel\":");
    push_int(&mut out, channel);
    push_str(
        &mut out,
        ",\"acceptAggregationPeriod\":10,\"acceptDataFormat\":\"COMPACT\",\"acceptEventFields\":{\"",
    );
    push_str(&mut out, name);
    push_str(&mut out, "\":[");
    let ghost before = out@;
    let mut i: usize = 0;
    while i < fields.len()
        invariant
            i <= fields.len(),
            out@ == before + quoted_list(texts(fields@).take(i as int)),
        decreases fields.len() - i,
    {
        let ghost prev = out@;
        if i > 0 {
            out.push(',');
        }
        push_quoted(&mut out, fields[i].as_str());
        let ghost cur = texts(fields@).take(i + 1);
        assert(cur.drop_last() =~= texts(fields@).take(i as int));
        assert(cur.last() == fields@[i as int]@);
        if i == 0 {
            assert(cur =~= seq![fields@[0]@]);
        }
        i = i + 1;
        assert(out@ =~= before + quoted_list(texts(fields@).take(i as int)));
    }
    assert(texts(fields@).take(fields.len() as int) =~= texts(fields@));
    push_str(&mut out, "]}}");
    assert(out@ =~= feed_setup_text(channel as int, name@, texts(fields@)));
    string_of(&out)
}

/// The subscription message for `symbols[from..to]`.
pub fn subscription_message(channel: i32, name: &str, symbols: &[String], from: usize, to: usize) -> (r: String)
    requires
        from <= to <= symbols.len(),
    ensures
        r@ == subscription_text(channel as int, name@, texts(symbols@).subrange(from as int, to as int)),
{
    let mut out: Vec<char> = Vec::new();
    push_str(&mut out, "{\"type\":\"FEED_SUBSCRIPTION\",\"channel\":");
    push_int(&mut out, channel);
    push_str(&mut out, ",\"add\":[");
    let ghost before = out@;
    let ghost all = texts(symbols@).subrange(from as int, to as int);
    let mut i: usize = from;
    while i < to
        invariant
            from <= i <= to <= symbols.len(),
            all == texts(symbols@).subrange(from as int, to as int),
            out@ == before + entries_list(name@, all.take(i - from)),
        decreases to - i,
    {
        if i > from {
            out.push(',');
        }
        push_str(&mut out, "{\"type\":\"");
        push_str(&mut out, name);
        push_str(&mut out, "\",\"symbol\":\"");
        push_str(&mut out, symbols[i].as_str());
        push_str(&mut out, "\"}");
        let ghost cur = all.take(i + 1 - from);
        assert(cur.drop_last() =~= all.take(i - from));
        assert(cur.last() == symbols@[i as int]@);
        if i == from {
            assert(cur =~= seq![symbols@[i as int]@]);
        }
        i = i + 1;
        assert(out@ =~= before + entries_list(name@, all.take(i - from)));
    }
    assert(all.take(to - from) =~= all);
    push_str(&mut out, "]}");
    assert(out@ =~= subscription_text(channel as int, name@, all));
    string_of(&out)
}

/// The subscription chunks cut the symbol list into consecutive runs: chunk `k` starts at
/// `k * MAX_SUBSCRIPTION_SIZE`, every chunk but the last holds exactly
/// `MAX_SUBSCRIPTION_SIZE` symbols, and the last one ends with the list.
pub proof fn lemma_chunks_partition(symbols: Seq<Seq<char>>, k: int)
    requires
        0 <= k < chunk_count(symbols.len()),
    ensures
        k < chunk_count(symbols.len()) - 1 ==> chunk(symbols, k) == symbols.subrange(
            k * MAX_SUBSCRIPTION_SIZE,
            (k + 1) * MAX_SUBSCRIPTION_SIZE,
        ),
        k == chunk_count(symbols.len()) - 1 ==> chunk(symbols, k) == symbols.subrange(
            k * MAX_SUBSCRIPTION_SIZE,
            symbols.len() as int,
        ),
        chunk(symbols, k).len() > 0,
{
}

} // verus!
