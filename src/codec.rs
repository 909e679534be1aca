//! The binary record format: tagged unions carry a one-byte discriminant,
//! integers are little-endian, and byte strings and lists carry an eight-byte
//! length in front.
use vstd::prelude::*;
use crate::primitives::{
    address_wf, addresses_view, call_wf, confirmation_wf, option_address_view, option_address_wf,
    simulation_wf, tx_object_wf, AddressModel, BlockchainNetwork, CallModel, ConfirmationModel,
    ConfirmationStatus, LifetimeStatus, SimulationModel, TxConfirmationObject, TxObject,
    TxObjectModel, TxSimulationObject, VaneCallData, VaneMultiAddress,
};

verus! {

/// 256 to the power `k`.
pub open spec fn byte_base(k: nat) -> nat
    decreases k,
{
    if k == 0 {
        1
    } else {
        256 * byte_base((k - 1) as nat)
    }
}

/// The `k` little-endian bytes of `n`.
pub open spec fn le_bytes(n: nat, k: nat) -> Seq<u8>
    decreases k,
{
    if k == 0 {
        Seq::empty()
    } else {
        seq![(n % 256) as u8] + le_bytes(n / 256, (k - 1) as nat)
    }
}

/// The number that the little-endian bytes `s` stand for.
pub open spec fn le_value(s: Seq<u8>) -> nat
    decreases s.len(),
{
    if s.len() == 0 {
        0
    } else {
        s[0] as nat + 256 * le_value(s.skip(1))
    }
}

pub proof fn lemma_le_bytes_len(n: nat, k: nat)
    ensures
        le_bytes(n, k).len() == k,
    decreases k,
{
    if k > 0 {
        lemma_le_bytes_len(n / 256, (k - 1) as nat);
    }
}

pub proof fn lemma_le_value_bound(s: Seq<u8>)
    ensures
        le_value(s) < byte_base(s.len()),
    decreases s.len(),
{
    if s.len() > 0 {
        lemma_le_value_bound(s.skip(1));
    }
}

pub proof fn lemma_le_round_trip(n: nat, k: nat)
    requires
        n < byte_base(k),
    ensures
        le_value(le_bytes(n, k)) == n,
        le_bytes(n, k).len() == k,
    decreases k,
{
    lemma_le_bytes_len(n, k);
    if k > 0 {
        let rest = le_bytes(n / 256, (k - 1) as nat);
        assert(n / 256 < byte_base((k - 1) as nat)) by (nonlinear_arith)
            requires
                n < 256 * byte_base((k - 1) as nat),
        ;
        lemma_le_round_trip(n / 256, (k - 1) as nat);
        assert(le_bytes(n, k).skip(1) =~= rest);
        assert(n == n % 256 + 256 * (n / 256)) by (nonlinear_arith);
    }
}

pub proof fn lemma_le_unique(s: Seq<u8>)
    ensures
        le_bytes(le_value(s), s.len()) == s,
    decreases s.len(),
{
    if s.len() > 0 {
        let v = le_value(s.skip(1));
        lemma_le_unique(s.skip(1));
        let n = s[0] as nat + 256 * v;
        assert(n % 256 == s[0] as nat && n / 256 == v) by (nonlinear_arith)
            requires
                n == s[0] as nat + 256 * v,
                s[0] < 256,
        ;
        assert(le_bytes(n, s.len()) =~= s);
    }
}

pub proof fn lemma_byte_base_values()
    ensures
        byte_base(8) == 0x1_0000_0000_0000_0000,
        byte_base(16) == 0x1_0000_0000_0000_0000_0000_0000_0000_0000,
{
    reveal_with_fuel(byte_base, 17);
}

/// Appends the `k` little-endian bytes of `n`.
pub fn write_le(out: &mut Vec<u8>, n: u128, k: usize)
    requires
        k <= 16,
    ensures
        final(out)@ == old(out)@ + le_bytes(n as nat, k as nat),
{
    let ghost start = old(out)@;
    let mut cur: u128 = n;
    let mut i: usize = 0;
    while i < k
        invariant
            i <= k,
            start + le_bytes(n as nat, k as nat) == out@ + le_bytes(cur as nat, (k - i) as nat),
        decreases k - i,
    {
        let ghost before = out@;
        out.push((cur % 256) as u8);
        proof {
            let rest = le_bytes((cur / 256) as nat, (k - i - 1) as nat);
            assert(le_bytes(cur as nat, (k - i) as nat) == seq![(cur % 256) as u8] + rest);
            assert(out@ + rest =~= before + (seq![(cur % 256) as u8] + rest));
        }
        cur = cur / 256;
        i = i + 1;
    }
    assert(out@ + le_bytes(cur as nat, 0) =~= out@);
}

/// Reads the `k` little-endian bytes at `pos`.
pub fn read_le(bytes: &Vec<u8>, pos: usize, k: usize) -> (r: u128)
    requires
        k <= 16,
        pos + k <= bytes@.len(),
    ensures
        r as nat == le_value(bytes@.subrange(pos as int, pos + k)),
{
    let ghost s = bytes@.subrange(pos as int, pos + k);
    let len = bytes.len();
    let mut acc: u128 = 0;
    let mut i: usize = k;
    while i > 0
        invariant
            k <= 16,
            pos + k <= bytes@.len(),
            len == bytes@.len(),
            s == bytes@.subrange(pos as int, pos + k),
            i <= k,
            acc as nat == le_value(s.skip(i as int)),
        decreases i,
    {
        proof {
            let t = s.skip(i - 1);
            assert(t.skip(1) =~= s.skip(i as int));
            lemma_le_value_bound(s.skip(i as int));
            assert(byte_base((k - i) as nat) <= byte_base(15)) by {
                lemma_byte_base_mono((k - i) as nat, 15);
            }
            lemma_byte_base_values();
            assert(byte_base(16) == 256 * byte_base(15));
        }
        acc = bytes[pos + i - 1] as u128 + 256 * acc;
        i = i - 1;
    }
    assert(s.skip(0) =~= s);
    acc
}

pub proof fn lemma_byte_base_mono(a: nat, b: nat)
    requires
        a <= b,
    ensures
        byte_base(a) <= byte_base(b),
    decreases b,
{
    if a < b {
        lemma_byte_base_mono(a, (b - 1) as nat);
    }
}


/// Appends the bytes of `b`.
pub fn write_bytes(out: &mut Vec<u8>, b: &[u8])
    ensures
        final(out)@ == old(out)@ + b@,
{
    let ghost start = old(out)@;
    let mut i: usize = 0;
    while i < b.len()
        invariant
            i <= b@.len(),
            out@ == start + b@.subrange(0, i as int),
        decreases b@.len() - i,
    {
        out.push(b[i]);
        i = i + 1;
        assert(out@ =~= start + b@.subrange(0, i as int));
    }
    assert(b@.subrange(0, i as int) =~= b@);
}

/// The `N` bytes at `pos`, as an array.
pub fn read_array<const N: usize>(bytes: &Vec<u8>, pos: usize) -> (r: [u8; N])
    requires
        pos + N <= bytes@.len(),
    ensures
        r@ == bytes@.subrange(pos as int, pos + N),
{
    let len = bytes.len();
    let mut r: [u8; N] = [0u8; N];
    let mut i: usize = 0;
    while i < N
        invariant
            pos + N <= len,
            len == bytes@.len(),
            i <= N,
            r@.len() == N,
            forall|j: int| 0 <= j < i ==> r@[j] == bytes@[pos + j],
        decreases N - i,
    {
        r[i] = bytes[pos + i];
        i = i + 1;
    }
    assert(r@ =~= bytes@.subrange(pos as int, pos + N));
    r
}

/// The `n` bytes at `pos`.
pub fn read_vec(bytes: &Vec<u8>, pos: usize, n: usize) -> (r: Vec<u8>)
    requires
        pos + n <= bytes@.len(),
    ensures
        r@ == bytes@.subrange(pos as int, pos + n),
{
    let len = bytes.len();
    let mut r: Vec<u8> = Vec::new();
    let mut i: usize = 0;
    while i < n
        invariant
            pos + n <= len,
            len == bytes@.len(),
            i <= n,
            r@ == bytes@.subrange(pos as int, pos + i),
        decreases n - i,
    {
        r.push(bytes[pos + i]);
        i = i + 1;
        assert(r@ =~= bytes@.subrange(pos as int, pos + i));
    }
    r
}

/// The encoding of an address: its variant's discriminant, then its bytes.
pub open spec fn enc_address(a: AddressModel) -> Seq<u8> {
    match a {
        AddressModel::Id(k) => seq![0u8] + k,
        AddressModel::Index => seq![1u8],
        AddressModel::Raw(r) => seq![2u8] + le_bytes(r.len(), 8) + r,
        AddressModel::Address32(k) => seq![3u8] + k,
        AddressModel::Address20(k) => seq![4u8] + k,
    }
}

/// The address at the front of `s`, and the number of bytes it takes.
#[verifier::opaque]
pub open spec fn parse_address(s: Seq<u8>) -> Option<(AddressModel, int)> {
    if s.len() == 0 {
        None
    } else if s[0] == 0 {
        if s.len() >= 33 { Some((AddressModel::Id(s.subrange(1, 33)), 33)) } else { None }
    } else if s[0] == 1 {
        Some((AddressModel::Index, 1))
    } else if s[0] == 2 {
        if s.len() >= 9 && le_value(s.subrange(1, 9)) <= s.len() - 9 {
            let n = le_value(s.subrange(1, 9)) as int;
            Some((AddressModel::Raw(s.subrange(9, 9 + n)), 9 + n))
        } else {
            None
        }
    } else if s[0] == 3 {
        if s.len() >= 33 { Some((AddressModel::Address32(s.subrange(1, 33)), 33)) } else { None }
    } else if s[0] == 4 {
        if s.len() >= 21 { Some((AddressModel::Address20(s.subrange(1, 21)), 21)) } else { None }
    } else {
        None
    }
}

/// What a parser may return: a value and a length within the input.
pub open spec fn parsed_from<T>(s: Seq<u8>, r: Option<(T, int)>, enc: spec_fn(T) -> Seq<u8>) -> bool {
    r matches Some((v, n)) ==> 0 <= n <= s.len() && s.subrange(0, n) == enc(v)
}

pub proof fn lemma_address_round_trip(a: AddressModel, rest: Seq<u8>)
    requires
        address_wf(a),
    ensures
        parse_address(enc_address(a) + rest) == Some((a, enc_address(a).len() as int)),
{
    reveal(parse_address);
    let s = enc_address(a) + rest;
    match a {
        AddressModel::Raw(r) => {
            lemma_byte_base_values();
            lemma_le_round_trip(r.len(), 8);
            assert(s.subrange(1, 9) =~= le_bytes(r.len(), 8));
            assert(s.subrange(9, 9 + r.len() as int) =~= r);
        },
        AddressModel::Id(k) => {
            assert(s.subrange(1, 33) =~= k);
        },
        AddressModel::Address32(k) => {
            assert(s.subrange(1, 33) =~= k);
        },
        AddressModel::Address20(k) => {
            assert(s.subrange(1, 21) =~= k);
        },
        AddressModel::Index => {},
    }
}

pub proof fn lemma_address_sound(s: Seq<u8>)
    ensures
        parse_address(s) matches Some((a, n)) ==> address_wf(a) && 0 <= n <= s.len()
            && s.subrange(0, n) == enc_address(a),
{
    reveal(parse_address);
    if let Some((a, n)) = parse_address(s) {
        if s[0] == 2 {
            let len_bytes = s.subrange(1, 9);
            lemma_le_unique(len_bytes);
            lemma_le_value_bound(len_bytes);
            lemma_byte_base_values();
            assert(s.subrange(0, n) =~= seq![2u8] + len_bytes + s.subrange(9, n));
        } else if s[0] == 1 {
            assert(s.subrange(0, n) =~= seq![1u8]);
        } else {
            assert(s.subrange(0, n) =~= seq![s[0]] + s.subrange(1, n));
        }
    }
}

/// Every address value has the lengths its model requires.
pub proof fn lemma_address_wf(a: &VaneMultiAddress)
    ensures
        address_wf(a@),
{
    lemma_byte_base_values();
    match a {
        VaneMultiAddress::Raw(r) => {
            assert(r@.len() == r.len());
        },
        _ => {},
    }
}

pub fn encode_address(a: &VaneMultiAddress, out: &mut Vec<u8>)
    ensures
        final(out)@ == old(out)@ + enc_address(a@),
{
    let ghost start = old(out)@;
    match a {
        VaneMultiAddress::Id(k) => {
            out.push(0u8);
            write_bytes(out, k.as_slice());
        },
        VaneMultiAddress::Index => {
            out.push(1u8);
        },
        VaneMultiAddress::Raw(r) => {
            out.push(2u8);
            write_le(out, r.len() as u128, 8);
            write_bytes(out, r.as_slice());
        },
        VaneMultiAddress::Address32(k) => {
            out.push(3u8);
            write_bytes(out, k.as_slice());
        },
        VaneMultiAddress::Address20(k) => {
            out.push(4u8);
            write_bytes(out, k.as_slice());
        },
    }
    assert(out@ =~= start + enc_address(a@));
}

pub fn decode_address(bytes: &Vec<u8>, pos: usize) -> (r: Option<(VaneMultiAddress, usize)>)
    requires
        pos <= bytes@.len(),
    ensures
        match r {
            Some((a, end)) => pos <= end <= bytes@.len()
                && parse_address(bytes@.skip(pos as int)) == Some((a@, end - pos)),
            None => parse_address(bytes@.skip(pos as int)) is None,
        },
{
    reveal(parse_address);
    let ghost s = bytes@.skip(pos as int);
    let len = bytes.len();
    if pos == len {
        return None;
    }
    let tag = bytes[pos];
    let left = len - pos;
    if tag == 0 {
        if left >= 33 {
            let k = read_array::<32>(bytes, pos + 1);
            assert(k@ =~= s.subrange(1, 33));
            Some((VaneMultiAddress::Id(k), pos + 33))
        } else {
            None
        }
    } else if tag == 1 {
        Some((VaneMultiAddress::Index, pos + 1))
    } else if tag == 2 {
        if left < 9 {
            return None;
        }
        let n = read_le(bytes, pos + 1, 8);
        assert(bytes@.subrange(pos + 1, pos + 9) =~= s.subrange(1, 9));
        if n > (left - 9) as u128 {
            return None;
        }
        let n = n as usize;
        let r = read_vec(bytes, pos + 9, n);
        assert(r@ =~= s.subrange(9, 9 + n));
        Some((VaneMultiAddress::Raw(r), pos + 9 + n))
    } else if tag == 3 {
        if left >= 33 {
            let k = read_array::<32>(bytes, pos + 1);
            assert(k@ =~= s.subrange(1, 33));
            Some((VaneMultiAddress::Address32(k), pos + 33))
        } else {
            None
        }
    } else if tag == 4 {
        if left >= 21 {
            let k = read_array::<20>(bytes, pos + 1);
            assert(k@ =~= s.subrange(1, 21));
            Some((VaneMultiAddress::Address20(k), pos + 21))
        } else {
            None
        }
    } else {
        None
    }
}


/// The concatenated encodings of a list of addresses.
pub open spec fn enc_addresses(l: Seq<AddressModel>) -> Seq<u8>
    decreases l.len(),
{
    if l.len() == 0 {
        Seq::empty()
    } else {
        enc_address(l[0]) + enc_addresses(l.skip(1))
    }
}

/// `count` addresses at the front of `s`, and the number of bytes they take.
pub open spec fn parse_addresses(s: Seq<u8>, count: nat) -> Option<(Seq<AddressModel>, int)>
    decreases count,
{
    if count == 0 {
        Some((Seq::empty(), 0))
    } else {
        match parse_address(s) {
            Some((a, n)) => match parse_addresses(s.skip(n), (count - 1) as nat) {
                Some((l, m)) => Some((seq![a] + l, n + m)),
                None => None,
            },
            None => None,
        }
    }
}

pub proof fn lemma_enc_addresses_push(l: Seq<AddressModel>, a: AddressModel)
    ensures
        enc_addresses(l.push(a)) == enc_addresses(l) + enc_address(a),
    decreases l.len(),
{
    if l.len() == 0 {
        let e = Seq::<AddressModel>::empty();
        assert(l.push(a).skip(1) =~= e);
        assert(enc_addresses(e) == Seq::<u8>::empty());
        assert(l.push(a)[0] == a);
        assert(enc_addresses(l.push(a)) =~= enc_address(a));
        assert(enc_addresses(l) == Seq::<u8>::empty());
    } else {
        lemma_enc_addresses_push(l.skip(1), a);
        assert(l.push(a).skip(1) =~= l.skip(1).push(a));
        assert(enc_addresses(l.push(a)) =~= enc_addresses(l) + enc_address(a));
    }
}

pub proof fn lemma_addresses_round_trip(l: Seq<AddressModel>, rest: Seq<u8>)
    requires
        forall|i: int| 0 <= i < l.len() ==> address_wf(#[trigger] l[i]),
    ensures
        parse_addresses(enc_addresses(l) + rest, l.len()) == Some((l, enc_addresses(l).len() as int)),
    decreases l.len(),
{
    if l.len() > 0 {
        let tail = l.skip(1);
        let s = enc_addresses(l) + rest;
        assert(address_wf(l[0]));
        assert forall|i: int| 0 <= i < tail.len() implies address_wf(#[trigger] tail[i]) by {
            assert(tail[i] == l[i + 1]);
        }
        lemma_addresses_round_trip(tail, rest);
        assert(s =~= enc_address(l[0]) + (enc_addresses(tail) + rest));
        lemma_address_round_trip(l[0], enc_addresses(tail) + rest);
        assert(s.skip(enc_address(l[0]).len() as int) =~= enc_addresses(tail) + rest);
        assert(seq![l[0]] + tail =~= l);
    }
}

pub proof fn lemma_addresses_sound(s: Seq<u8>, count: nat)
    ensures
        parse_addresses(s, count) matches Some((l, m)) ==> l.len() == count && 0 <= m <= s.len()
            && s.subrange(0, m) == enc_addresses(l)
            && forall|i: int| 0 <= i < l.len() ==> address_wf(#[trigger] l[i]),
    decreases count,
{
    if count > 0 {
        if let Some((a, n)) = parse_address(s) {
            lemma_address_sound(s);
            lemma_addresses_sound(s.skip(n), (count - 1) as nat);
            if let Some((l, m)) = parse_addresses(s.skip(n), (count - 1) as nat) {
                let all = seq![a] + l;
                assert(all.skip(1) =~= l);
                assert(s.subrange(0, n + m) =~= s.subrange(0, n) + s.skip(n).subrange(0, m));
                assert forall|i: int| 0 <= i < all.len() implies address_wf(#[trigger] all[i]) by {
                    if i > 0 {
                        assert(all[i] == l[i - 1]);
                    }
                }
            }
        }
    }
}

pub fn encode_addresses(l: &Vec<VaneMultiAddress>, out: &mut Vec<u8>)
    ensures
        final(out)@ == old(out)@ + enc_addresses(addresses_view(l@)),
{
    let ghost start = old(out)@;
    let ghost view = addresses_view(l@);
    let mut i: usize = 0;
    while i < l.len()
        invariant
            i <= l@.len(),
            view == addresses_view(l@),
            out@ == start + enc_addresses(view.subrange(0, i as int)),
        decreases l@.len() - i,
    {
        encode_address(&l[i], out);
        proof {
            lemma_enc_addresses_push(view.subrange(0, i as int), view[i as int]);
            assert(view.subrange(0, i as int).push(view[i as int]) =~= view.subrange(0, i + 1));
        }
        i = i + 1;
    }
    assert(view.subrange(0, i as int) =~= view);
}

pub fn decode_addresses(bytes: &Vec<u8>, pos: usize, count: u64) -> (r: Option<(Vec<VaneMultiAddress>, usize)>)
    requires
        pos <= bytes@.len(),
    ensures
        match r {
            Some((l, end)) => pos <= end <= bytes@.len()
                && parse_addresses(bytes@.skip(pos as int), count as nat) == Some((addresses_view(l@), end - pos)),
            None => parse_addresses(bytes@.skip(pos as int), count as nat) is None,
        },
{
    let ghost s = bytes@.skip(pos as int);
    let mut items: Vec<VaneMultiAddress> = Vec::new();
    let mut at: usize = pos;
    let mut i: u64 = 0;
    while i < count
        invariant
            pos <= at <= bytes@.len(),
            i <= count,
            s == bytes@.skip(pos as int),
            addresses_view(items@).len() == i,
            parse_addresses(s, count as nat) == match parse_addresses(bytes@.skip(at as int), (count - i) as nat) {
                Some((l, m)) => Some((addresses_view(items@) + l, (at - pos) + m)),
                None => None::<(Seq<AddressModel>, int)>,
            },
        decreases count - i,
    {
        let ghost t = bytes@.skip(at as int);
        match decode_address(bytes, at) {
            Some((a, end)) => {
                proof {
                    assert(t.skip(end - at) =~= bytes@.skip(end as int));
                    let ghost old_items = addresses_view(items@);
                    assert(addresses_view(items@.push(a)) =~= old_items + seq![a@]);
                    match parse_addresses(bytes@.skip(end as int), (count - i - 1) as nat) {
                        Some((l, m)) => {
                            assert(old_items + (seq![a@] + l) =~= (old_items + seq![a@]) + l);
                        },
                        None => {},
                    }
                }
                items.push(a);
                at = end;
                i = i + 1;
            },
            None => {
                return None;
            },
        }
    }
    assert(addresses_view(items@) + Seq::<AddressModel>::empty() =~= addresses_view(items@));
    Some((items, at))
}

/// The encoding of a call: its variant's discriminant, the amount, and for the
/// Solana family the list of extra receivers.
pub open spec fn enc_call(c: CallModel) -> Seq<u8> {
    match c {
        CallModel::Substrate { amount } => seq![0u8] + le_bytes(amount as nat, 16),
        CallModel::Solana { amount, extra_receivers } => seq![1u8] + le_bytes(amount as nat, 16)
            + le_bytes(extra_receivers.len(), 8) + enc_addresses(extra_receivers),
        CallModel::Ethereum { amount } => seq![2u8] + le_bytes(amount as nat, 16),
    }
}

/// The call at the front of `s`, and the number of bytes it takes.
#[verifier::opaque]
pub open spec fn parse_call(s: Seq<u8>) -> Option<(CallModel, int)> {
    if s.len() < 17 {
        None
    } else {
        let amount = le_value(s.subrange(1, 17)) as u128;
        if s[0] == 0 {
            Some((CallModel::Substrate { amount }, 17))
        } else if s[0] == 2 {
            Some((CallModel::Ethereum { amount }, 17))
        } else if s[0] == 1 && s.len() >= 25 {
            match parse_addresses(s.skip(25), le_value(s.subrange(17, 25))) {
                Some((l, m)) => Some((CallModel::Solana { amount, extra_receivers: l }, 25 + m)),
                None => None,
            }
        } else {
            None
        }
    }
}

pub proof fn lemma_call_round_trip(c: CallModel, rest: Seq<u8>)
    requires
        call_wf(c),
    ensures
        parse_call(enc_call(c) + rest) == Some((c, enc_call(c).len() as int)),
{
    reveal(parse_call);
    let s = enc_call(c) + rest;
    lemma_byte_base_values();
    match c {
        CallModel::Solana { amount, extra_receivers } => {
            lemma_le_round_trip(amount as nat, 16);
            lemma_le_round_trip(extra_receivers.len(), 8);
            assert(s.subrange(1, 17) =~= le_bytes(amount as nat, 16));
            assert(s.subrange(17, 25) =~= le_bytes(extra_receivers.len(), 8));
            lemma_addresses_round_trip(extra_receivers, rest);
            assert(s.skip(25) =~= enc_addresses(extra_receivers) + rest);
        },
        CallModel::Substrate { amount } => {
            lemma_le_round_trip(amount as nat, 16);
            assert(s.subrange(1, 17) =~= le_bytes(amount as nat, 16));
        },
        CallModel::Ethereum { amount } => {
            lemma_le_round_trip(amount as nat, 16);
            assert(s.subrange(1, 17) =~= le_bytes(amount as nat, 16));
        },
    }
}

pub proof fn lemma_call_sound(s: Seq<u8>)
    ensures
        parse_call(s) matches Some((c, n)) ==> call_wf(c) && 0 <= n <= s.len()
            && s.subrange(0, n) == enc_call(c),
{
    reveal(parse_call);
    if let Some((c, n)) = parse_call(s) {
        lemma_byte_base_values();
        let amount_bytes = s.subrange(1, 17);
        lemma_le_unique(amount_bytes);
        lemma_le_value_bound(amount_bytes);
        if s[0] == 1 {
            let count_bytes = s.subrange(17, 25);
            lemma_le_unique(count_bytes);
            lemma_le_value_bound(count_bytes);
            lemma_addresses_sound(s.skip(25), le_value(count_bytes));
            let m = n - 25;
            assert(s.subrange(0, n) =~= seq![1u8] + amount_bytes + count_bytes + s.skip(25).subrange(0, m));
        } else {
            assert(s.subrange(0, n) =~= seq![s[0]] + amount_bytes);
        }
    }
}

pub proof fn lemma_call_wf(c: &VaneCallData)
    ensures
        call_wf(c@),
{
    lemma_byte_base_values();
    match c {
        VaneCallData::SolanaCallData { extra_receivers, .. } => {
            assert(extra_receivers@.len() == extra_receivers.len());
            assert forall|i: int| 0 <= i < extra_receivers@.len() implies
                address_wf(#[trigger] addresses_view(extra_receivers@)[i]) by {
                lemma_address_wf(&extra_receivers@[i]);
            }
        },
        _ => {},
    }
}

pub fn encode_call(c: &VaneCallData, out: &mut Vec<u8>)
    ensures
        final(out)@ == old(out)@ + enc_call(c@),
{
    let ghost start = old(out)@;
    match c {
        VaneCallData::SubstrateCallData { amount } => {
            out.push(0u8);
            write_le(out, *amount, 16);
        },
        VaneCallData::SolanaCallData { amount, extra_receivers } => {
            out.push(1u8);
            write_le(out, *amount, 16);
            write_le(out, extra_receivers.len() as u128, 8);
            encode_addresses(extra_receivers, out);
        },
        VaneCallData::EthereumCallData { amount } => {
            out.push(2u8);
            write_le(out, *amount, 16);
        },
    }
    assert(out@ =~= start + enc_call(c@));
}

pub fn decode_call(bytes: &Vec<u8>, pos: usize) -> (r: Option<(VaneCallData, usize)>)
    requires
        pos <= bytes@.len(),
    ensures
        match r {
            Some((c, end)) => pos <= end <= bytes@.len()
                && parse_call(bytes@.skip(pos as int)) == Some((c@, end - pos)),
            None => parse_call(bytes@.skip(pos as int)) is None,
        },
{
    reveal(parse_call);
    let ghost s = bytes@.skip(pos as int);
    let len = bytes.len();
    if len - pos < 17 {
        return None;
    }
    let tag = bytes[pos];
    let amount = read_le(bytes, pos + 1, 16);
    assert(bytes@.subrange(pos + 1, pos + 17) =~= s.subrange(1, 17));
    if tag == 0 {
        Some((VaneCallData::SubstrateCallData { amount }, pos + 17))
    } else if tag == 2 {
        Some((VaneCallData::EthereumCallData { amount }, pos + 17))
    } else if tag == 1 && len - pos >= 25 {
        let count = read_le(bytes, pos + 17, 8);
        assert(bytes@.subrange(pos + 17, pos + 25) =~= s.subrange(17, 25));
        proof {
            lemma_le_value_bound(s.subrange(17, 25));
            lemma_byte_base_values();
        }
        assert(s.skip(25) =~= bytes@.skip(pos + 25));
        match decode_addresses(bytes, pos + 25, count as u64) {
            Some((extra_receivers, end)) => Some((VaneCallData::SolanaCallData { amount, extra_receivers }, end)),
            None => None,
        }
    } else {
        None
    }
}


pub open spec fn network_tag(n: BlockchainNetwork) -> u8 {
    match n {
        BlockchainNetwork::Polkadot => 0,
        BlockchainNetwork::Kusama => 1,
        BlockchainNetwork::Astar => 2,
        BlockchainNetwork::Moonbeam => 3,
        BlockchainNetwork::Ethereum => 4,
        BlockchainNetwork::Optimism => 5,
        BlockchainNetwork::Arbitrum => 6,
        BlockchainNetwork::Solana => 7,
    }
}

pub open spec fn network_of_tag(b: u8) -> Option<BlockchainNetwork> {
    if b == 0 {
        Some(BlockchainNetwork::Polkadot)
    } else if b == 1 {
        Some(BlockchainNetwork::Kusama)
    } else if b == 2 {
        Some(BlockchainNetwork::Astar)
    } else if b == 3 {
        Some(BlockchainNetwork::Moonbeam)
    } else if b == 4 {
        Some(BlockchainNetwork::Ethereum)
    } else if b == 5 {
        Some(BlockchainNetwork::Optimism)
    } else if b == 6 {
        Some(BlockchainNetwork::Arbitrum)
    } else if b == 7 {
        Some(BlockchainNetwork::Solana)
    } else {
        None
    }
}

pub open spec fn status_tag(c: ConfirmationStatus) -> u8 {
    match c {
        ConfirmationStatus::WaitingForReceiver => 0,
        ConfirmationStatus::WaitingForSender => 1,
        ConfirmationStatus::Ready => 2,
        ConfirmationStatus::Accepted => 3,
        ConfirmationStatus::RejectedMismatchAddress => 4,
        ConfirmationStatus::RejectedSenderRevert => 5,
    }
}

pub open spec fn status_of_tag(b: u8) -> Option<ConfirmationStatus> {
    if b == 0 {
        Some(ConfirmationStatus::WaitingForReceiver)
    } else if b == 1 {
        Some(ConfirmationStatus::WaitingForSender)
    } else if b == 2 {
        Some(ConfirmationStatus::Ready)
    } else if b == 3 {
        Some(ConfirmationStatus::Accepted)
    } else if b == 4 {
        Some(ConfirmationStatus::RejectedMismatchAddress)
    } else if b == 5 {
        Some(ConfirmationStatus::RejectedSenderRevert)
    } else {
        None
    }
}

pub open spec fn lifetime_tag(l: LifetimeStatus) -> u8 {
    match l {
        LifetimeStatus::Valid => 0,
        LifetimeStatus::Invalid => 1,
    }
}

pub open spec fn lifetime_of_tag(b: u8) -> Option<LifetimeStatus> {
    if b == 0 {
        Some(LifetimeStatus::Valid)
    } else if b == 1 {
        Some(LifetimeStatus::Invalid)
    } else {
        None
    }
}

/// An optional byte takes two bytes: a presence flag and the value (zero when absent).
pub open spec fn enc_opt_u8(o: Option<u8>) -> Seq<u8> {
    match o {
        Some(b) => seq![1u8, b],
        None => seq![0u8, 0u8],
    }
}

pub open spec fn opt_u8_of(flag: u8, b: u8) -> Option<Option<u8>> {
    if flag == 1 {
        Some(Some(b))
    } else if flag == 0 && b == 0 {
        Some(None)
    } else {
        None
    }
}

pub fn network_to_byte(n: BlockchainNetwork) -> (r: u8)
    ensures
        r == network_tag(n),
{
    match n {
        BlockchainNetwork::Polkadot => 0,
        BlockchainNetwork::Kusama => 1,
        BlockchainNetwork::Astar => 2,
        BlockchainNetwork::Moonbeam => 3,
        BlockchainNetwork::Ethereum => 4,
        BlockchainNetwork::Optimism => 5,
        BlockchainNetwork::Arbitrum => 6,
        BlockchainNetwork::Solana => 7,
    }
}

pub fn network_from_byte(b: u8) -> (r: Option<BlockchainNetwork>)
    ensures
        r == network_of_tag(b),
{
    if b == 0 {
        Some(BlockchainNetwork::Polkadot)
    } else if b == 1 {
        Some(BlockchainNetwork::Kusama)
    } else if b == 2 {
        Some(BlockchainNetwork::Astar)
    } else if b == 3 {
        Some(BlockchainNetwork::Moonbeam)
    } else if b == 4 {
        Some(BlockchainNetwork::Ethereum)
    } else if b == 5 {
        Some(BlockchainNetwork::Optimism)
    } else if b == 6 {
        Some(BlockchainNetwork::Arbitrum)
    } else if b == 7 {
        Some(BlockchainNetwork::Solana)
    } else {
        None
    }
}

pub fn status_to_byte(c: ConfirmationStatus) -> (r: u8)
    ensures
        r == status_tag(c),
{
    match c {
        ConfirmationStatus::WaitingForReceiver => 0,
        ConfirmationStatus::WaitingForSender => 1,
        ConfirmationStatus::Ready => 2,
        ConfirmationStatus::Accepted => 3,
        ConfirmationStatus::RejectedMismatchAddress => 4,
        ConfirmationStatus::RejectedSenderRevert => 5,
    }
}

pub fn status_from_byte(b: u8) -> (r: Option<ConfirmationStatus>)
    ensures
        r == status_of_tag(b),
{
    if b == 0 {
        Some(ConfirmationStatus::WaitingForReceiver)
    } else if b == 1 {
        Some(ConfirmationStatus::WaitingForSender)
    } else if b == 2 {
        Some(ConfirmationStatus::Ready)
    } else if b == 3 {
        Some(ConfirmationStatus::Accepted)
    } else if b == 4 {
        Some(ConfirmationStatus::RejectedMismatchAddress)
    } else if b == 5 {
        Some(ConfirmationStatus::RejectedSenderRevert)
    } else {
        None
    }
}

/// The encoding of an optional address: a presence flag, then the address.
pub open spec fn enc_opt_address(o: Option<AddressModel>) -> Seq<u8> {
    match o {
        Some(a) => seq![1u8] + enc_address(a),
        None => seq![0u8],
    }
}

#[verifier::opaque]
pub open spec fn parse_opt_address(s: Seq<u8>) -> Option<(Option<AddressModel>, int)> {
    if s.len() == 0 {
        None
    } else if s[0] == 0 {
        Some((None, 1))
    } else if s[0] == 1 {
        match parse_address(s.skip(1)) {
            Some((a, n)) => Some((Some(a), 1 + n)),
            None => None,
        }
    } else {
        None
    }
}

pub proof fn lemma_opt_address_round_trip(o: Option<AddressModel>, rest: Seq<u8>)
    requires
        option_address_wf(o),
    ensures
        parse_opt_address(enc_opt_address(o) + rest) == Some((o, enc_opt_address(o).len() as int)),
{
    reveal(parse_opt_address);
    if let Some(a) = o {
        lemma_address_round_trip(a, rest);
        assert((enc_opt_address(o) + rest).skip(1) =~= enc_address(a) + rest);
    }
}

pub proof fn lemma_opt_address_sound(s: Seq<u8>)
    ensures
        parse_opt_address(s) matches Some((o, n)) ==> option_address_wf(o) && 0 <= n <= s.len()
            && s.subrange(0, n) == enc_opt_address(o),
{
    reveal(parse_opt_address);
    if let Some((o, n)) = parse_opt_address(s) {
        if s[0] == 1 {
            lemma_address_sound(s.skip(1));
            assert(s.subrange(0, n) =~= seq![1u8] + s.skip(1).subrange(0, n - 1));
        } else {
            assert(s.subrange(0, n) =~= seq![0u8]);
        }
    }
}

pub fn encode_opt_address(o: &Option<VaneMultiAddress>, out: &mut Vec<u8>)
    ensures
        final(out)@ == old(out)@ + enc_opt_address(option_address_view(*o)),
{
    let ghost start = old(out)@;
    match o {
        Some(a) => {
            out.push(1u8);
            encode_address(a, out);
        },
        None => {
            out.push(0u8);
        },
    }
    assert(out@ =~= start + enc_opt_address(option_address_view(*o)));
}

pub fn decode_opt_address(bytes: &Vec<u8>, pos: usize) -> (r: Option<(Option<VaneMultiAddress>, usize)>)
    requires
        pos <= bytes@.len(),
    ensures
        match r {
            Some((o, end)) => pos <= end <= bytes@.len()
                && parse_opt_address(bytes@.skip(pos as int)) == Some((option_address_view(o), end - pos)),
            None => parse_opt_address(bytes@.skip(pos as int)) is None,
        },
{
    reveal(parse_opt_address);
    let ghost s = bytes@.skip(pos as int);
    if pos == bytes.len() {
        return None;
    }
    let flag = bytes[pos];
    if flag == 0 {
        Some((None, pos + 1))
    } else if flag == 1 {
        assert(s.skip(1) =~= bytes@.skip(pos + 1));
        match decode_address(bytes, pos + 1) {
            Some((a, end)) => Some((Some(a), end)),
            None => None,
        }
    } else {
        None
    }
}

/// The encoding of a transaction: its identifier, network, lifetime status and
/// lifetime, then its call and its sender, receiver and commitment.
pub open spec fn enc_tx_object(t: TxObjectModel) -> Seq<u8> {
    t.tx_id + seq![network_tag(t.network), lifetime_tag(t.lifetime_status)] + enc_opt_u8(t.lifetime)
        + enc_call(t.call) + enc_address(t.sender) + enc_address(t.receiver) + enc_address(t.multi_id)
}

/// The transaction that the bytes `b` encode, if they encode one.
pub open spec fn tx_object_decoding(b: Seq<u8>) -> Option<TxObjectModel> {
    if b.len() < 36 {
        None
    } else {
        match (network_of_tag(b[32]), lifetime_of_tag(b[33]), opt_u8_of(b[34], b[35])) {
            (Some(network), Some(lifetime_status), Some(lifetime)) => match parse_call(b.skip(36)) {
                Some((call, n1)) => match parse_address(b.skip(36 + n1)) {
                    Some((sender, n2)) => match parse_address(b.skip(36 + n1 + n2)) {
                        Some((receiver, n3)) => match parse_address(b.skip(36 + n1 + n2 + n3)) {
                            Some((multi_id, n4)) => if 36 + n1 + n2 + n3 + n4 == b.len() {
                                Some(TxObjectModel {
                                    tx_id: b.subrange(0, 32),
                                    call,
                                    sender,
                                    receiver,
                                    multi_id,
                                    network,
                                    lifetime,
                                    lifetime_status,
                                })
                            } else {
                                None
                            },
                            None => None,
                        },
                        None => None,
                    },
                    None => None,
                },
                None => None,
            },
            _ => None,
        }
    }
}

/// Decoding the encoding of a transaction gives that transaction back.
pub proof fn lemma_tx_object_round_trip(t: TxObjectModel)
    requires
        tx_object_wf(t),
    ensures
        tx_object_decoding(enc_tx_object(t)) == Some(t),
{
    let b = enc_tx_object(t);
    let head = t.tx_id + seq![network_tag(t.network), lifetime_tag(t.lifetime_status)] + enc_opt_u8(t.lifetime);
    let ec = enc_call(t.call);
    let es = enc_address(t.sender);
    let er = enc_address(t.receiver);
    let em = enc_address(t.multi_id);
    let (n1, n2, n3) = (ec.len() as int, es.len() as int, er.len() as int);
    assert(b =~= head + (ec + (es + (er + em))));
    assert(b[32] == network_tag(t.network));
    assert(b[33] == lifetime_tag(t.lifetime_status));
    assert(b[34] == enc_opt_u8(t.lifetime)[0] && b[35] == enc_opt_u8(t.lifetime)[1]);
    assert(b.skip(36) =~= ec + (es + (er + em)));
    lemma_call_round_trip(t.call, es + (er + em));
    assert(b.skip(36 + n1) =~= es + (er + em));
    lemma_address_round_trip(t.sender, er + em);
    assert(b.skip(36 + n1 + n2) =~= er + em);
    lemma_address_round_trip(t.receiver, em);
    assert(b.skip(36 + n1 + n2 + n3) =~= em + Seq::<u8>::empty());
    lemma_address_round_trip(t.multi_id, Seq::<u8>::empty());
    assert(b.subrange(0, 32) =~= t.tx_id);
}

/// Bytes that decode to a transaction are exactly that transaction's encoding.
pub proof fn lemma_tx_object_sound(b: Seq<u8>)
    ensures
        tx_object_decoding(b) matches Some(t) ==> tx_object_wf(t) && enc_tx_object(t) == b,
{
    if let Some(t) = tx_object_decoding(b) {
        let (call, n1) = parse_call(b.skip(36))->0;
        lemma_call_sound(b.skip(36));
        let (sender, n2) = parse_address(b.skip(36 + n1))->0;
        lemma_address_sound(b.skip(36 + n1));
        let (receiver, n3) = parse_address(b.skip(36 + n1 + n2))->0;
        lemma_address_sound(b.skip(36 + n1 + n2));
        lemma_address_sound(b.skip(36 + n1 + n2 + n3));
        assert(enc_opt_u8(t.lifetime) =~= seq![b[34], b[35]]);
        assert(b =~= b.subrange(0, 32) + seq![b[32], b[33]] + seq![b[34], b[35]]
            + b.skip(36).subrange(0, n1) + b.skip(36 + n1).subrange(0, n2)
            + b.skip(36 + n1 + n2).subrange(0, n3) + b.skip(36 + n1 + n2 + n3));
        assert(b.skip(36 + n1 + n2 + n3) =~= b.skip(36 + n1 + n2 + n3).subrange(0, b.len() - (36 + n1 + n2 + n3)));
    }
}

pub proof fn lemma_tx_object_wf(t: &TxObject)
    ensures
        tx_object_wf(t@),
{
    lemma_call_wf(&t.call);
    lemma_address_wf(&t.sender_address);
    lemma_address_wf(&t.receiver_address);
    lemma_address_wf(&t.multi_id);
}

/// The bytes of a transaction record.
pub fn encode_tx_object(t: &TxObject) -> (r: Vec<u8>)
    ensures
        r@ == enc_tx_object(t@),
{
    let mut out: Vec<u8> = Vec::new();
    write_bytes(&mut out, t.tx_id.as_slice());
    out.push(network_to_byte(t.network));
    out.push(match t.lifetime_status {
        LifetimeStatus::Valid => 0u8,
        LifetimeStatus::Invalid => 1u8,
    });
    match t.lifetime {
        Some(b) => {
            out.push(1u8);
            out.push(b);
        },
        None => {
            out.push(0u8);
            out.push(0u8);
        },
    }
    encode_call(&t.call, &mut out);
    encode_address(&t.sender_address, &mut out);
    encode_address(&t.receiver_address, &mut out);
    encode_address(&t.multi_id, &mut out);
    assert(out@ =~= enc_tx_object(t@));
    out
}

/// The transaction that `bytes` encode; `None` where they encode none.
pub fn decode_tx_object(bytes: &Vec<u8>) -> (r: Option<TxObject>)
    ensures
        match r {
            Some(t) => tx_object_decoding(bytes@) == Some(t@),
            None => tx_object_decoding(bytes@) is None,
        },
{
    let b = bytes;
    if b.len() < 36 {
        return None;
    }
    let network = match network_from_byte(b[32]) {
        Some(n) => n,
        None => return None,
    };
    let lifetime_status = if b[33] == 0 {
        LifetimeStatus::Valid
    } else if b[33] == 1 {
        LifetimeStatus::Invalid
    } else {
        return None;
    };
    let lifetime = if b[34] == 1 {
        Some(b[35])
    } else if b[34] == 0 && b[35] == 0 {
        None
    } else {
        return None;
    };
    let (call, end1) = match decode_call(b, 36) {
        Some(x) => x,
        None => return None,
    };
    let (sender_address, end2) = match decode_address(b, end1) {
        Some(x) => x,
        None => return None,
    };
    let (receiver_address, end3) = match decode_address(b, end2) {
        Some(x) => x,
        None => return None,
    };
    let (multi_id, end4) = match decode_address(b, end3) {
        Some(x) => x,
        None => return None,
    };
    if end4 != b.len() {
        return None;
    }
    let tx_id = read_array::<32>(b, 0);
    Some(TxObject { tx_id, call, sender_address, receiver_address, multi_id, network, lifetime, lifetime_status })
}


/// The encoding of a confirmation record: its identifier, status and network,
/// then its call, its commitment, and the confirmed sender and receiver.
pub open spec fn enc_confirmation(c: ConfirmationModel) -> Seq<u8> {
    c.tx_id + seq![status_tag(c.status), network_tag(c.network)] + enc_call(c.call)
        + enc_address(c.multi_id) + enc_opt_address(c.confirmed_sender) + enc_opt_address(c.confirmed_receiver)
}

/// The confirmation record that the bytes `b` encode, if they encode one.
pub open spec fn confirmation_decoding(b: Seq<u8>) -> Option<ConfirmationModel> {
    if b.len() < 34 {
        None
    } else {
        match (status_of_tag(b[32]), network_of_tag(b[33])) {
            (Some(status), Some(network)) => match parse_call(b.skip(34)) {
                Some((call, n1)) => match parse_address(b.skip(34 + n1)) {
                    Some((multi_id, n2)) => match parse_opt_address(b.skip(34 + n1 + n2)) {
                        Some((confirmed_sender, n3)) => match parse_opt_address(b.skip(34 + n1 + n2 + n3)) {
                            Some((confirmed_receiver, n4)) => if 34 + n1 + n2 + n3 + n4 == b.len() {
                                Some(ConfirmationModel {
                                    confirmed_sender,
                                    confirmed_receiver,
                                    tx_id: b.subrange(0, 32),
                                    call,
                                    status,
                                    multi_id,
                                    network,
                                })
                            } else {
                                None
                            },
                            None => None,
                        },
                        None => None,
                    },
                    None => None,
                },
                None => None,
            },
            _ => None,
        }
    }
}

/// Decoding the encoding of a confirmation record gives that record back.
pub proof fn lemma_confirmation_round_trip(c: ConfirmationModel)
    requires
        confirmation_wf(c),
    ensures
        confirmation_decoding(enc_confirmation(c)) == Some(c),
{
    let b = enc_confirmation(c);
    let head = c.tx_id + seq![status_tag(c.status), network_tag(c.network)];
    let ec = enc_call(c.call);
    let em = enc_address(c.multi_id);
    let es = enc_opt_address(c.confirmed_sender);
    let er = enc_opt_address(c.confirmed_receiver);
    let (n1, n2, n3) = (ec.len() as int, em.len() as int, es.len() as int);
    assert(b =~= head + (ec + (em + (es + er))));
    assert(b[32] == status_tag(c.status));
    assert(b[33] == network_tag(c.network));
    assert(b.skip(34) =~= ec + (em + (es + er)));
    lemma_call_round_trip(c.call, em + (es + er));
    assert(b.skip(34 + n1) =~= em + (es + er));
    lemma_address_round_trip(c.multi_id, es + er);
    assert(b.skip(34 + n1 + n2) =~= es + er);
    lemma_opt_address_round_trip(c.confirmed_sender, er);
    assert(b.skip(34 + n1 + n2 + n3) =~= er + Seq::<u8>::empty());
    lemma_opt_address_round_trip(c.confirmed_receiver, Seq::<u8>::empty());
    assert(b.subrange(0, 32) =~= c.tx_id);
}

/// Bytes that decode to a confirmation record are exactly that record's encoding.
pub proof fn lemma_confirmation_sound(b: Seq<u8>)
    ensures
        confirmation_decoding(b) matches Some(c) ==> confirmation_wf(c) && enc_confirmation(c) == b,
{
    if let Some(c) = confirmation_decoding(b) {
        let (call, n1) = parse_call(b.skip(34))->0;
        lemma_call_sound(b.skip(34));
        let (multi_id, n2) = parse_address(b.skip(34 + n1))->0;
        lemma_address_sound(b.skip(34 + n1));
        let (sender, n3) = parse_opt_address(b.skip(34 + n1 + n2))->0;
        lemma_opt_address_sound(b.skip(34 + n1 + n2));
        lemma_opt_address_sound(b.skip(34 + n1 + n2 + n3));
        assert(b =~= b.subrange(0, 32) + seq![b[32], b[33]]
            + b.skip(34).subrange(0, n1) + b.skip(34 + n1).subrange(0, n2)
            + b.skip(34 + n1 + n2).subrange(0, n3) + b.skip(34 + n1 + n2 + n3));
        assert(b.skip(34 + n1 + n2 + n3) =~= b.skip(34 + n1 + n2 + n3).subrange(0, b.len() - (34 + n1 + n2 + n3)));
    }
}

pub proof fn lemma_confirmation_wf(c: &TxConfirmationObject)
    ensures
        confirmation_wf(c@),
{
    lemma_call_wf(&c.call);
    lemma_address_wf(&c.multi_id);
    if let Some(a) = &c.confirmed_sender_address {
        lemma_address_wf(a);
    }
    if let Some(a) = &c.confirmed_receiver_address {
        lemma_address_wf(a);
    }
}

/// The bytes of a confirmation record.
pub fn encode_confirmation(c: &TxConfirmationObject) -> (r: Vec<u8>)
    ensures
        r@ == enc_confirmation(c@),
{
    let mut out: Vec<u8> = Vec::new();
    write_bytes(&mut out, c.tx_id.as_slice());
    out.push(status_to_byte(c.confirmation_status));
    out.push(network_to_byte(c.network));
    encode_call(&c.call, &mut out);
    encode_address(&c.multi_id, &mut out);
    encode_opt_address(&c.confirmed_sender_address, &mut out);
    encode_opt_address(&c.confirmed_receiver_address, &mut out);
    assert(out@ =~= enc_confirmation(c@));
    out
}

/// The confirmation record that `bytes` encode; `None` where they encode none.
pub fn decode_confirmation(bytes: &Vec<u8>) -> (r: Option<TxConfirmationObject>)
    ensures
        match r {
            Some(c) => confirmation_decoding(bytes@) == Some(c@),
            None => confirmation_decoding(bytes@) is None,
        },
{
    let b = bytes;
    if b.len() < 34 {
        return None;
    }
    let confirmation_status = match status_from_byte(b[32]) {
        Some(x) => x,
        None => return None,
    };
    let network = match network_from_byte(b[33]) {
        Some(n) => n,
        None => return None,
    };
    let (call, end1) = match decode_call(b, 34) {
        Some(x) => x,
        None => return None,
    };
    let (multi_id, end2) = match decode_address(b, end1) {
        Some(x) => x,
        None => return None,
    };
    let (confirmed_sender_address, end3) = match decode_opt_address(b, end2) {
        Some(x) => x,
        None => return None,
    };
    let (confirmed_receiver_address, end4) = match decode_opt_address(b, end3) {
        Some(x) => x,
        None => return None,
    };
    if end4 != b.len() {
        return None;
    }
    let tx_id = read_array::<32>(b, 0);
    Some(TxConfirmationObject {
        confirmed_sender_address,
        confirmed_receiver_address,
        tx_id,
        call,
        confirmation_status,
        multi_id,
        network,
    })
}

/// The encoding of a simulation record: its identifier, status and network,
/// then its call, its sender and its receiver.
pub open spec fn enc_simulation(m: SimulationModel) -> Seq<u8> {
    m.tx_id + seq![status_tag(m.status), network_tag(m.network)] + enc_call(m.call)
        + enc_address(m.sender) + enc_address(m.receiver)
}

/// The simulation record that the bytes `b` encode, if they encode one.
pub open spec fn simulation_decoding(b: Seq<u8>) -> Option<SimulationModel> {
    if b.len() < 34 {
        None
    } else {
        match (status_of_tag(b[32]), network_of_tag(b[33])) {
            (Some(status), Some(network)) => match parse_call(b.skip(34)) {
                Some((call, n1)) => match parse_address(b.skip(34 + n1)) {
                    Some((sender, n2)) => match parse_address(b.skip(34 + n1 + n2)) {
                        Some((receiver, n3)) => if 34 + n1 + n2 + n3 == b.len() {
                            Some(SimulationModel { sender, receiver, tx_id: b.subrange(0, 32), call, status, network })
                        } else {
                            None
                        },
                        None => None,
                    },
                    None => None,
                },
                None => None,
            },
            _ => None,
        }
    }
}

/// Decoding the encoding of a simulation record gives that record back.
pub proof fn lemma_simulation_round_trip(m: SimulationModel)
    requires
        simulation_wf(m),
    ensures
        simulation_decoding(enc_simulation(m)) == Some(m),
{
    let b = enc_simulation(m);
    let head = m.tx_id + seq![status_tag(m.status), network_tag(m.network)];
    let ec = enc_call(m.call);
    let es = enc_address(m.sender);
    let er = enc_address(m.receiver);
    let (n1, n2) = (ec.len() as int, es.len() as int);
    assert(b =~= head + (ec + (es + er)));
    assert(b[32] == status_tag(m.status));
    assert(b[33] == network_tag(m.network));
    assert(b.skip(34) =~= ec + (es + er));
    lemma_call_round_trip(m.call, es + er);
    assert(b.skip(34 + n1) =~= es + er);
    lemma_address_round_trip(m.sender, er);
    assert(b.skip(34 + n1 + n2) =~= er + Seq::<u8>::empty());
    lemma_address_round_trip(m.receiver, Seq::<u8>::empty());
    assert(b.subrange(0, 32) =~= m.tx_id);
}

/// Bytes that decode to a simulation record are exactly that record's encoding.
pub proof fn lemma_simulation_sound(b: Seq<u8>)
    ensures
        simulation_decoding(b) matches Some(m) ==> simulation_wf(m) && enc_simulation(m) == b,
{
    if let Some(m) = simulation_decoding(b) {
        let (call, n1) = parse_call(b.skip(34))->0;
        lemma_call_sound(b.skip(34));
        let (sender, n2) = parse_address(b.skip(34 + n1))->0;
        lemma_address_sound(b.skip(34 + n1));
        lemma_address_sound(b.skip(34 + n1 + n2));
        assert(b =~= b.subrange(0, 32) + seq![b[32], b[33]]
            + b.skip(34).subrange(0, n1) + b.skip(34 + n1).subrange(0, n2) + b.skip(34 + n1 + n2));
        assert(b.skip(34 + n1 + n2) =~= b.skip(34 + n1 + n2).subrange(0, b.len() - (34 + n1 + n2)));
    }
}

pub proof fn lemma_simulation_wf(m: &TxSimulationObject)
    ensures
        simulation_wf(m@),
{
    lemma_call_wf(&m.call);
    lemma_address_wf(&m.sender_address);
    lemma_address_wf(&m.receiver_address);
}

/// The bytes of a simulation record.
pub fn encode_simulation(m: &TxSimulationObject) -> (r: Vec<u8>)
    ensures
        r@ == enc_simulation(m@),
{
    let mut out: Vec<u8> = Vec::new();
    write_bytes(&mut out, m.tx_id.as_slice());
    out.push(status_to_byte(m.confirmation_status));
    out.push(network_to_byte(m.network));
    encode_call(&m.call, &mut out);
    encode_address(&m.sender_address, &mut out);
    encode_address(&m.receiver_address, &mut out);
    assert(out@ =~= enc_simulation(m@));
    out
}

/// The simulation record that `bytes` encode; `None` where they encode none.
pub fn decode_simulation(bytes: &Vec<u8>) -> (r: Option<TxSimulationObject>)
    ensures
        match r {
            Some(m) => simulation_decoding(bytes@) == Some(m@),
            None => simulation_decoding(bytes@) is None,
        },
{
    let b = bytes;
    if b.len() < 34 {
        return None;
    }
    let confirmation_status = match status_from_byte(b[32]) {
        Some(x) => x,
        None => return None,
    };
    let network = match network_from_byte(b[33]) {
        Some(n) => n,
        None => return None,
    };
    let (call, end1) = match decode_call(b, 34) {
        Some(x) => x,
        None => return None,
    };
    let (sender_address, end2) = match decode_address(b, end1) {
        Some(x) => x,
        None => return None,
    };
    let (receiver_address, end3) = match decode_address(b, end2) {
        Some(x) => x,
        None => return None,
    };
    if end3 != b.len() {
        return None;
    }
    let tx_id = read_array::<32>(b, 0);
    Some(TxSimulationObject { sender_address, receiver_address, tx_id, call, confirmation_status, network })
}

} // verus!
