//! The payload format of a block: a one-character tag for the transaction's
//! kind, then its fields, each written as its length in sixteen hexadecimal
//! digits followed by its characters. Numbers are fields of sixteen
//! hexadecimal digits; an absent optional number is an empty field.

use vstd::prelude::*;
use crate::text::{pad_hex, hex_value, pow16, lemma_hex_round_trip, lemma_pow16_16, push_hex, parse_hex16};
use crate::chat_data::{TxView, UserView, StatusView, ConnectionView, RewardView, ChatTransaction,
    UserProfile, OnlineStatus, ConnectionRecord, ChatReward};

verus! {

/// One field: its length in sixteen hex digits, then its characters.
pub open spec fn enc_field(f: Seq<char>) -> Seq<char> {
    pad_hex(f.len(), 16) + f
}

/// The fields one after another.
pub open spec fn enc_fields(fs: Seq<Seq<char>>) -> Seq<char>
    decreases fs.len(),
{
    if fs.len() == 0 {
        seq![]
    } else {
        enc_field(fs[0]) + enc_fields(fs.drop_first())
    }
}

/// Splits text into fields; `None` if it is not a whole number of fields.
pub open spec fn parse_fields(s: Seq<char>) -> Option<Seq<Seq<char>>>
    decreases s.len(),
{
    if s.len() == 0 {
        Some(seq![])
    } else if s.len() < 16 {
        None
    } else {
        match hex_value(s.subrange(0, 16)) {
            Some(n) => if 16 + n <= s.len() {
                match parse_fields(s.subrange(16 + n as int, s.len() as int)) {
                    Some(rest) => Some(seq![s.subrange(16, 16 + n as int)] + rest),
                    None => None,
                }
            } else {
                None
            },
            None => None,
        }
    }
}

/// A number as a field.
pub open spec fn num_field(n: u64) -> Seq<char> {
    pad_hex(n as nat, 16)
}

/// The number a field holds, if it is sixteen hex digits.
pub open spec fn field_num(f: Seq<char>) -> Option<u64> {
    if f.len() == 16 {
        match hex_value(f) {
            Some(v) => if v < 0x1_0000_0000_0000_0000 { Some(v as u64) } else { None },
            None => None,
        }
    } else {
        None
    }
}

/// An optional number as a field: empty when absent.
pub open spec fn opt_field(n: Option<u64>) -> Seq<char> {
    match n {
        Some(v) => num_field(v),
        None => seq![],
    }
}

pub open spec fn field_opt(f: Seq<char>) -> Option<Option<u64>> {
    if f.len() == 0 {
        Some(None)
    } else {
        match field_num(f) {
            Some(v) => Some(Some(v)),
            None => None,
        }
    }
}

/// The tag character of each kind of transaction.
pub open spec fn tag_of(t: TxView) -> char {
    match t {
        TxView::UserRegister(_) => 'U',
        TxView::StatusUpdate(_) => 'S',
        TxView::ConnectionEstablished(_) => 'C',
        TxView::RewardIssued(_) => 'R',
    }
}

/// The fields of a transaction, in order.
pub open spec fn fields_of(t: TxView) -> Seq<Seq<char>> {
    match t {
        TxView::UserRegister(u) => seq![u.address, u.username, u.public_key, u.last_seen,
            num_field(u.reputation), num_field(u.token_balance)],
        TxView::StatusUpdate(s) => seq![s.address, s.username, s.status, s.node_id, s.timestamp],
        TxView::ConnectionEstablished(c) => seq![c.from_address, c.to_address, c.connection_type,
            c.timestamp, opt_field(c.duration), num_field(c.message_count)],
        TxView::RewardIssued(r) => seq![r.user_address, r.action, num_field(r.reward_amount), r.timestamp],
    }
}

/// The transaction that a tag and fields describe, if any.
pub open spec fn tx_from_fields(tag: char, fs: Seq<Seq<char>>) -> Option<TxView> {
    if tag == 'U' && fs.len() == 6 {
        match (field_num(fs[4]), field_num(fs[5])) {
            (Some(rep), Some(bal)) => Some(TxView::UserRegister(UserView {
                address: fs[0], username: fs[1], public_key: fs[2], last_seen: fs[3],
                reputation: rep, token_balance: bal,
            })),
            _ => None,
        }
    } else if tag == 'S' && fs.len() == 5 {
        Some(TxView::StatusUpdate(StatusView {
            address: fs[0], username: fs[1], status: fs[2], node_id: fs[3], timestamp: fs[4],
        }))
    } else if tag == 'C' && fs.len() == 6 {
        match (field_opt(fs[4]), field_num(fs[5])) {
            (Some(d), Some(m)) => Some(TxView::ConnectionEstablished(ConnectionView {
                from_address: fs[0], to_address: fs[1], connection_type: fs[2], timestamp: fs[3],
                duration: d, message_count: m,
            })),
            _ => None,
        }
    } else if tag == 'R' && fs.len() == 4 {
        match field_num(fs[2]) {
            Some(a) => Some(TxView::RewardIssued(RewardView {
                user_address: fs[0], action: fs[1], reward_amount: a, timestamp: fs[3],
            })),
            None => None,
        }
    } else {
        None
    }
}

/// The payload of a transaction.
pub open spec fn encode_tx(t: TxView) -> Seq<char> {
    seq![tag_of(t)] + enc_fields(fields_of(t))
}

/// The transaction a payload holds; `None` for one that is no transaction.
pub open spec fn decode_tx(s: Seq<char>) -> Option<TxView> {
    if s.len() == 0 {
        None
    } else {
        match parse_fields(s.drop_first()) {
            Some(fs) => tx_from_fields(s[0], fs),
            None => None,
        }
    }
}

/// Every field of a transaction is short enough for its length to be written.
pub open spec fn tx_fits(t: TxView) -> bool {
    forall|i: int| 0 <= i < fields_of(t).len() ==> (#[trigger] fields_of(t)[i]).len() < pow16(16)
}

pub proof fn lemma_pad_hex_len(n: nat, w: nat)
    ensures
        pad_hex(n, w).len() == w,
    decreases w,
{
    if w > 0 {
        lemma_pad_hex_len(n / 16, (w - 1) as nat);
    }
}

pub proof fn lemma_enc_fields_push(fs: Seq<Seq<char>>, f: Seq<char>)
    ensures
        enc_fields(fs.push(f)) == enc_fields(fs) + enc_field(f),
    decreases fs.len(),
{
    if fs.len() == 0 {
        assert(fs.push(f).drop_first() =~= Seq::<Seq<char>>::empty());
        assert(enc_fields(Seq::<Seq<char>>::empty()) == Seq::<char>::empty());
        assert(enc_fields(fs.push(f)) =~= enc_fields(fs) + enc_field(f));
    } else {
        assert(fs.push(f).drop_first() =~= fs.drop_first().push(f));
        lemma_enc_fields_push(fs.drop_first(), f);
        assert(enc_fields(fs.push(f)) =~= enc_fields(fs) + enc_field(f));
    }
}

/// Splitting the fields written one after another gives them back.
pub proof fn lemma_fields_round_trip(fs: Seq<Seq<char>>)
    requires
        forall|i: int| 0 <= i < fs.len() ==> (#[trigger] fs[i]).len() < pow16(16),
    ensures
        parse_fields(enc_fields(fs)) == Some(fs),
    decreases fs.len(),
{
    if fs.len() > 0 {
        let f = fs[0];
        let rest = fs.drop_first();
        let s = enc_fields(fs);
        lemma_pad_hex_len(f.len(), 16);
        lemma_hex_round_trip(f.len(), 16);
        assert(s.subrange(0, 16) =~= pad_hex(f.len(), 16));
        assert(s.subrange(16, 16 + f.len() as int) =~= f);
        assert(s.subrange(16 + f.len() as int, s.len() as int) =~= enc_fields(rest));
        lemma_fields_round_trip(rest);
        assert(seq![f] + rest =~= fs);
    }
}

proof fn lemma_num_round_trip(n: u64)
    ensures
        field_num(num_field(n)) == Some(n),
        num_field(n).len() == 16,
{
    lemma_pow16_16();
    lemma_pad_hex_len(n as nat, 16);
    lemma_hex_round_trip(n as nat, 16);
}

/// A transaction is rebuilt from its own tag and fields.
proof fn lemma_from_own_fields(t: TxView)
    ensures
        tx_from_fields(tag_of(t), fields_of(t)) == Some(t),
{
    match t {
        TxView::UserRegister(u) => {
            lemma_num_round_trip(u.reputation);
            lemma_num_round_trip(u.token_balance);
        },
        TxView::StatusUpdate(_) => {},
        TxView::ConnectionEstablished(c) => {
            lemma_num_round_trip(c.message_count);
            match c.duration {
                Some(d) => { lemma_num_round_trip(d); },
                None => {},
            }
        },
        TxView::RewardIssued(r) => {
            lemma_num_round_trip(r.reward_amount);
        },
    }
}

/// Decoding a payload gives back the transaction it was encoded from.
pub proof fn lemma_tx_round_trip(t: TxView)
    requires
        tx_fits(t),
    ensures
        decode_tx(encode_tx(t)) == Some(t),
{
    let fs = fields_of(t);
    let s = encode_tx(t);
    lemma_fields_round_trip(fs);
    assert(s.drop_first() =~= enc_fields(fs));
    assert(s[0] == tag_of(t));
    lemma_from_own_fields(t);
}

/// The characters of each string.
pub open spec fn texts(v: Seq<String>) -> Seq<Seq<char>> {
    v.map_values(|f: String| f@)
}

/// Fields already read, in front of what the rest of the text splits into.
pub open spec fn prepend(acc: Seq<Seq<char>>, rest: Option<Seq<Seq<char>>>) -> Option<Seq<Seq<char>>> {
    match rest {
        Some(r) => Some(acc + r),
        None => None,
    }
}

/// Appends one field.
fn push_field(out: &mut String, f: &str)
    ensures
        final(out)@ == old(out)@ + enc_field(f@),
        f@.len() < pow16(16),
{
    proof { lemma_pow16_16(); }
    let n = f.unicode_len();
    push_hex(out, n as u64, 16);
    out.append(f);
    assert(out@ =~= old(out)@ + enc_field(f@));
}

/// A number as a field.
fn number_text(n: u64) -> (r: String)
    ensures
        r@ == num_field(n),
{
    let mut r = String::new();
    push_hex(&mut r, n, 16);
    assert(r@ =~= num_field(n));
    r
}

/// The tag, then the fields.
fn encode_fields(tag: &str, fields: &Vec<String>) -> (r: String)
    ensures
        r@ == tag@ + enc_fields(texts(fields@)),
        forall|i: int| 0 <= i < fields@.len() ==> (#[trigger] texts(fields@)[i]).len() < pow16(16),
{
    let mut r = String::new();
    r.append(tag);
    let mut i: usize = 0;
    assert(texts(fields@.subrange(0, 0)) =~= Seq::<Seq<char>>::empty());
    assert(r@ =~= tag@ + enc_fields(texts(fields@.subrange(0, 0))));
    while i < fields.len()
        invariant
            i <= fields@.len(),
            r@ == tag@ + enc_fields(texts(fields@.subrange(0, i as int))),
            forall|j: int| 0 <= j < i ==> (#[trigger] texts(fields@)[j]).len() < pow16(16),
        decreases fields@.len() - i,
    {
        push_field(&mut r, fields[i].as_str());
        proof {
            let before = texts(fields@.subrange(0, i as int));
            assert(texts(fields@.subrange(0, i + 1)) =~= before.push(fields@[i as int]@));
            lemma_enc_fields_push(before, fields@[i as int]@);
        }
        i = i + 1;
        assert(r@ =~= tag@ + enc_fields(texts(fields@.subrange(0, i as int))));
    }
    assert(fields@.subrange(0, fields@.len() as int) =~= fields@);
    r
}

/// The payload that holds a transaction.
pub fn encode_transaction(tx: &ChatTransaction) -> (r: String)
    ensures
        r@ == encode_tx(tx@),
        decode_tx(r@) == Some(tx@),
{
    let mut fs: Vec<String> = Vec::new();
    let tag: &str;
    match tx {
        ChatTransaction::UserRegister(u) => {
            proof { reveal_strlit("U"); }
            tag = "U";
            fs.push(u.address.clone());
            fs.push(u.username.clone());
            fs.push(u.public_key.clone());
            fs.push(u.last_seen.clone());
            fs.push(number_text(u.reputation));
            fs.push(number_text(u.token_balance));
        },
        ChatTransaction::StatusUpdate(st) => {
            proof { reveal_strlit("S"); }
            tag = "S";
            fs.push(st.address.clone());
            fs.push(st.username.clone());
            fs.push(st.status.clone());
            fs.push(st.node_id.clone());
            fs.push(st.timestamp.clone());
        },
        ChatTransaction::ConnectionEstablished(c) => {
            proof { reveal_strlit("C"); }
            tag = "C";
            fs.push(c.from_address.clone());
            fs.push(c.to_address.clone());
            fs.push(c.connection_type.clone());
            fs.push(c.timestamp.clone());
            match c.duration {
                Some(d) => { fs.push(number_text(d)); },
                None => { fs.push(String::new()); },
            }
            fs.push(number_text(c.message_count));
        },
        ChatTransaction::RewardIssued(rw) => {
            proof { reveal_strlit("R"); }
            tag = "R";
            fs.push(rw.user_address.clone());
            fs.push(rw.action.clone());
            fs.push(number_text(rw.reward_amount));
            fs.push(rw.timestamp.clone());
        },
    }
    assert(texts(fs@) =~= fields_of(tx@));
    assert(tag@ =~= seq![tag_of(tx@)]);
    let r = encode_fields(tag, &fs);
    proof { lemma_tx_round_trip(tx@); }
    r
}

/// Splits text into fields.
pub fn split_fields(s: &str) -> (r: Option<Vec<String>>)
    ensures
        r matches Some(v) ==> parse_fields(s@) == Some(texts(v@)),
        r is None ==> parse_fields(s@) is None,
{
    let n = s.unicode_len();
    let mut acc: Vec<String> = Vec::new();
    let mut p: usize = 0;
    assert(s@.subrange(0, n as int) =~= s@);
    assert(texts(acc@) =~= Seq::<Seq<char>>::empty());
    while p < n
        invariant
            n == s@.len(),
            p <= n,
            parse_fields(s@) == prepend(texts(acc@), parse_fields(s@.subrange(p as int, n as int))),
        decreases n - p,
    {
        let ghost sub = s@.subrange(p as int, n as int);
        if n - p < 16 {
            return None;
        }
        let head = s.substring_char(p, p + 16);
        assert(head@ =~= sub.subrange(0, 16));
        let len = match parse_hex16(head) {
            Some(v) => v,
            None => { return None; },
        };
        if len > (n - p - 16) as u64 {
            return None;
        }
        let l = len as usize;
        let field = s.substring_char(p + 16, p + 16 + l).to_string();
        assert(field@ =~= sub.subrange(16, 16 + l as int));
        let ghost fv = field@;
        assert(sub.subrange(16 + l as int, sub.len() as int) =~= s@.subrange((p + 16 + l) as int, n as int));
        let ghost before = texts(acc@);
        acc.push(field);
        proof {
            assert(texts(acc@) =~= before.push(fv));
            match parse_fields(s@.subrange((p + 16 + l) as int, n as int)) {
                Some(rest) => {
                    assert(before + (seq![fv] + rest) =~= before.push(fv) + rest);
                },
                None => {},
            }
        }
        p = p + 16 + l;
    }
    assert(s@.subrange(p as int, n as int) =~= Seq::<char>::empty());
    assert(texts(acc@) + Seq::<Seq<char>>::empty() =~= texts(acc@));
    Some(acc)
}

/// The number a field holds, if it is sixteen hex digits.
fn parse_number(f: &String) -> (r: Option<u64>)
    ensures
        r == field_num(f@),
{
    parse_hex16(f.as_str())
}

/// The optional number a field holds: empty for none.
fn parse_optional(f: &String) -> (r: Option<Option<u64>>)
    ensures
        r == field_opt(f@),
{
    if f.unicode_len() == 0 {
        Some(None)
    } else {
        match parse_number(f) {
            Some(v) => Some(Some(v)),
            None => None,
        }
    }
}

/// The transaction that a tag and fields describe, if any.
fn transaction_from_fields(tag: char, fs: &Vec<String>) -> (r: Option<ChatTransaction>)
    ensures
        r matches Some(t) ==> tx_from_fields(tag, texts(fs@)) == Some(t@),
        r is None ==> tx_from_fields(tag, texts(fs@)) is None,
{
    if tag == 'U' && fs.len() == 6 {
        match (parse_number(&fs[4]), parse_number(&fs[5])) {
            (Some(rep), Some(bal)) => Some(ChatTransaction::UserRegister(UserProfile {
                address: fs[0].clone(),
                username: fs[1].clone(),
                public_key: fs[2].clone(),
                last_seen: fs[3].clone(),
                reputation: rep,
                token_balance: bal,
            })),
            _ => None,
        }
    } else if tag == 'S' && fs.len() == 5 {
        Some(ChatTransaction::StatusUpdate(OnlineStatus {
            address: fs[0].clone(),
            username: fs[1].clone(),
            status: fs[2].clone(),
            node_id: fs[3].clone(),
            timestamp: fs[4].clone(),
        }))
    } else if tag == 'C' && fs.len() == 6 {
        match (parse_optional(&fs[4]), parse_number(&fs[5])) {
            (Some(d), Some(m)) => Some(ChatTransaction::ConnectionEstablished(ConnectionRecord {
                from_address: fs[0].clone(),
                to_address: fs[1].clone(),
                connection_type: fs[2].clone(),
                timestamp: fs[3].clone(),
                duration: d,
                message_count: m,
            })),
            _ => None,
        }
    } else if tag == 'R' && fs.len() == 4 {
        match parse_number(&fs[2]) {
            Some(a) => Some(ChatTransaction::RewardIssued(ChatReward {
                user_address: fs[0].clone(),
                action: fs[1].clone(),
                reward_amount: a,
                timestamp: fs[3].clone(),
            })),
            None => None,
        }
    } else {
        None
    }
}

/// The transaction that a payload holds; `None` for a payload that holds none.
pub fn decode_transaction(s: &str) -> (r: Option<ChatTransaction>)
    ensures
        r matches Some(t) ==> decode_tx(s@) == Some(t@),
        r is None ==> decode_tx(s@) is None,
{
    let n = s.unicode_len();
    if n == 0 {
        return None;
    }
    let tag = s.get_char(0);
    let rest = s.substring_char(1, n);
    assert(rest@ =~= s@.drop_first());
    match split_fields(rest) {
        Some(fs) => transaction_from_fields(tag, &fs),
        None => None,
    }
}

} // verus!
