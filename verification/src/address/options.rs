//! The text of one address: the name of a transport, and the keys and values
//! that describe it.

use vstd::prelude::*;
use crate::address::percent::{
    decode, decode_percents, encode, encode_percents, is_unreserved, lemma_decode_encode,
};
use crate::error::Error;
use crate::utils::{append_bytes, bytes_eq, copy_range};

verus! {

/// The byte `:`, which ends the name of the transport.
pub const COLON: u8 = 0x3a;

/// The byte `,`, which stands between two options.
pub const COMMA: u8 = 0x2c;

/// The byte `=`, which stands between a key and its value.
pub const EQUALS: u8 = 0x3d;

/// The byte `;`, which stands between two addresses.
pub const SEMICOLON: u8 = 0x3b;

/// The first place of `b` in `s`, or the length of `s` where `b` is not in it.
pub open spec fn find(s: Seq<u8>, b: u8) -> int
    decreases s.len(),
{
    if s.len() == 0 || s[0] == b {
        0
    } else {
        1 + find(s.skip(1), b)
    }
}

/// Whether `b` is nowhere in `s`.
pub open spec fn lacks(s: Seq<u8>, b: u8) -> bool {
    forall|i: int| 0 <= i < s.len() ==> #[trigger] s[i] != b
}

/// The parts of `s` between the occurrences of `sep`, of which there is
/// always one at least.
pub open spec fn split(s: Seq<u8>, sep: u8) -> Seq<Seq<u8>>
    decreases s.len(),
{
    let i = find(s, sep);
    if 0 <= i < s.len() {
        seq![s.take(i)] + split(s.skip(i + 1), sep)
    } else {
        seq![s]
    }
}

/// The `items` with `sep` between each two of them.
pub open spec fn join(items: Seq<Seq<u8>>, sep: u8) -> Seq<u8>
    decreases items.len(),
{
    if items.len() == 0 {
        Seq::empty()
    } else if items.len() == 1 {
        items[0]
    } else {
        items[0] + seq![sep] + join(items.skip(1), sep)
    }
}

/// `find` gives the first place of `b`: no place before it holds `b`, and it
/// holds `b` unless it is the length.
pub proof fn lemma_find(s: Seq<u8>, b: u8)
    ensures
        0 <= find(s, b) <= s.len(),
        find(s, b) < s.len() ==> s[find(s, b)] == b,
        forall|j: int| 0 <= j < find(s, b) ==> #[trigger] s[j] != b,
    decreases s.len(),
{
    if s.len() == 0 || s[0] == b {
    } else {
        let rest = s.skip(1);
        lemma_find(rest, b);
        assert forall|j: int| 0 <= j < find(s, b) implies #[trigger] s[j] != b by {
            if j > 0 {
                assert(rest[j - 1] != b);
            }
        }
    }
}

/// The place `k` is what `find` gives where no place before `k` holds `b` and
/// `k` holds `b` or is the length.
pub proof fn lemma_find_is(s: Seq<u8>, b: u8, k: int)
    requires
        0 <= k <= s.len(),
        forall|j: int| 0 <= j < k ==> #[trigger] s[j] != b,
        k < s.len() ==> s[k] == b,
    ensures
        find(s, b) == k,
{
    lemma_find(s, b);
    let f = find(s, b);
    if f < k {
        assert(s[f] != b);
    } else if f > k {
        assert(s[k] != b);
    }
}

/// Splitting what was joined gives the items back, where there is one at
/// least and none holds the separator.
pub proof fn lemma_split_join(items: Seq<Seq<u8>>, sep: u8)
    requires
        items.len() >= 1,
        forall|i: int| 0 <= i < items.len() ==> lacks(#[trigger] items[i], sep),
    ensures
        split(join(items, sep), sep) == items,
    decreases items.len(),
{
    let first = items[0];
    assert(lacks(first, sep));
    if items.len() == 1 {
        lemma_find_is(first, sep, first.len() as int);
        assert(items =~= seq![first]);
    } else {
        let rest = items.skip(1);
        assert forall|i: int| 0 <= i < rest.len() implies lacks(#[trigger] rest[i], sep) by {
            assert(lacks(items[i + 1], sep));
        }
        lemma_split_join(rest, sep);
        let s = join(items, sep);
        let tail = join(rest, sep);
        assert(s =~= first + seq![sep] + tail);
        assert forall|j: int| 0 <= j < first.len() implies #[trigger] s[j] != sep by {
            assert(s[j] == first[j]);
        }
        lemma_find_is(s, sep, first.len() as int);
        assert(s.take(first.len() as int) =~= first);
        assert(s.skip(first.len() as int + 1) =~= tail);
        assert(seq![first] + rest =~= items);
    }
}

/// The first place of `b` in the bytes of `buf` from `from` up to `to`, or
/// `to` where `b` is not among them.
pub fn find_byte(buf: &[u8], from: usize, to: usize, b: u8) -> (at: usize)
    requires
        from <= to <= buf.len(),
    ensures
        from <= at <= to,
        at - from == find(buf@.subrange(from as int, to as int), b),
        at < to ==> buf@[at as int] == b,
{
    let ghost s = buf@.subrange(from as int, to as int);
    let mut i: usize = from;
    while i < to
        invariant
            from <= i <= to <= buf.len(),
            s == buf@.subrange(from as int, to as int),
            forall|j: int| 0 <= j < i - from ==> #[trigger] s[j] != b,
        decreases to - i,
    {
        if buf[i] == b {
            proof {
                assert(s[i - from] == b);
                lemma_find_is(s, b, i - from);
            }
            return i;
        }
        assert(s[i - from] == buf@[i as int]);
        i += 1;
    }
    proof {
        lemma_find_is(s, b, to - from);
    }
    to
}

/// A key and its value, as bytes.
pub type Pair = (Seq<u8>, Seq<u8>);

/// An option as it stands in an address: the key, `=`, the encoded value.
pub open spec fn format_pair(p: Pair) -> Seq<u8> {
    p.0 + seq![EQUALS] + encode(p.1)
}

/// The option that `item` stands for, or nothing where it holds no `=` or a
/// value that cannot be decoded.
pub open spec fn parse_pair(item: Seq<u8>) -> Option<Pair> {
    let i = find(item, EQUALS);
    if 0 <= i < item.len() {
        match decode(item.skip(i + 1)) {
            Some(v) => Some((item.take(i), v)),
            None => None,
        }
    } else {
        None
    }
}

/// The options that the `items` stand for, or nothing where one of them
/// stands for none.
pub open spec fn parse_pairs(items: Seq<Seq<u8>>) -> Option<Seq<Pair>>
    decreases items.len(),
{
    if items.len() == 0 {
        Some(Seq::empty())
    } else {
        match (parse_pair(items[0]), parse_pairs(items.skip(1))) {
            (Some(p), Some(rest)) => Some(seq![p] + rest),
            _ => None,
        }
    }
}

/// The options as they stand in an address, one by one.
pub open spec fn format_pairs(pairs: Seq<Pair>) -> Seq<Seq<u8>> {
    pairs.map_values(|p: Pair| format_pair(p))
}

/// The value of the first option with the key `key`, if there is one.
pub open spec fn lookup(pairs: Seq<Pair>, key: Seq<u8>) -> Option<Seq<u8>>
    decreases pairs.len(),
{
    if pairs.len() == 0 {
        None
    } else if pairs[0].0 == key {
        Some(pairs[0].1)
    } else {
        lookup(pairs.skip(1), key)
    }
}

/// Whether no two of the options have the same key.
pub open spec fn keys_unique(pairs: Seq<Pair>) -> bool {
    forall|i: int, j: int| 0 <= i < j < pairs.len() ==> #[trigger] pairs[i].0 != #[trigger] pairs[j].0
}

/// Whether `s` is a word that may name a transport or be a key: it holds
/// none of the characters that part an address.
pub open spec fn is_word(s: Seq<u8>) -> bool {
    lacks(s, COLON) && lacks(s, COMMA) && lacks(s, EQUALS) && lacks(s, SEMICOLON)
}

/// One address as text: the name of the transport, `:`, and the options with
/// `,` between them.
pub open spec fn format_address(name: Seq<u8>, pairs: Seq<Pair>) -> Seq<u8> {
    name + seq![COLON] + join(format_pairs(pairs), COMMA)
}

/// What one address says, read as text: the name of the transport and the
/// options, or nothing where the text has no `:`, an option without `=`, a
/// value that cannot be decoded, or a key twice.
pub open spec fn parse_address(s: Seq<u8>) -> Option<(Seq<u8>, Seq<Pair>)> {
    let i = find(s, COLON);
    if 0 <= i < s.len() {
        let rest = s.skip(i + 1);
        if rest.len() == 0 {
            Some((s.take(i), Seq::empty()))
        } else {
            match parse_pairs(split(rest, COMMA)) {
                Some(pairs) => if keys_unique(pairs) {
                    Some((s.take(i), pairs))
                } else {
                    None
                },
                None => None,
            }
        }
    } else {
        None
    }
}

/// An encoded value holds none of the characters that part an address.
pub proof fn lemma_encoded_is_word(v: Seq<u8>)
    ensures
        is_word(encode(v)),
{
    lemma_decode_encode(v);
    let e = encode(v);
    assert forall|i: int| 0 <= i < e.len() implies #[trigger] e[i] != COLON && e[i] != COMMA
        && e[i] != EQUALS && e[i] != SEMICOLON by {
        assert(is_unreserved(e[i]) || e[i] == 0x25);
    }
}

/// Reading a written option gives it back, where its key is a word; and the
/// written option holds no `,` and no `;`.
pub proof fn lemma_pair_write_read(p: Pair)
    requires
        is_word(p.0),
    ensures
        parse_pair(format_pair(p)) == Some(p),
        lacks(format_pair(p), COMMA),
        lacks(format_pair(p), SEMICOLON),
{
    let s = format_pair(p);
    let k = p.0;
    let e = encode(p.1);
    lemma_encoded_is_word(p.1);
    lemma_decode_encode(p.1);
    assert forall|j: int| 0 <= j < k.len() implies #[trigger] s[j] != EQUALS by {
        assert(s[j] == k[j]);
    }
    lemma_find_is(s, EQUALS, k.len() as int);
    assert(s.take(k.len() as int) =~= k);
    assert(s.skip(k.len() as int + 1) =~= e);
    assert forall|j: int| 0 <= j < s.len() implies #[trigger] s[j] != COMMA && s[j]
        != SEMICOLON by {
        if j < k.len() {
            assert(s[j] == k[j]);
        } else if j > k.len() {
            assert(s[j] == e[j - k.len() - 1]);
        }
    }
}

/// Reading written options gives them back, where their keys are words.
pub proof fn lemma_pairs_write_read(pairs: Seq<Pair>)
    requires
        forall|i: int| 0 <= i < pairs.len() ==> is_word(#[trigger] pairs[i].0),
    ensures
        parse_pairs(format_pairs(pairs)) == Some(pairs),
        forall|i: int|
            0 <= i < pairs.len() ==> lacks(#[trigger] format_pairs(pairs)[i], COMMA) && lacks(
                format_pairs(pairs)[i],
                SEMICOLON,
            ),
    decreases pairs.len(),
{
    let items = format_pairs(pairs);
    if pairs.len() > 0 {
        let rest = pairs.skip(1);
        assert forall|i: int| 0 <= i < rest.len() implies is_word(#[trigger] rest[i].0) by {
            assert(is_word(pairs[i + 1].0));
        }
        lemma_pairs_write_read(rest);
        assert(is_word(pairs[0].0));
        lemma_pair_write_read(pairs[0]);
        assert(items.skip(1) =~= format_pairs(rest));
        assert(seq![pairs[0]] + rest =~= pairs);
        assert forall|i: int| 0 <= i < pairs.len() implies lacks(#[trigger] items[i], COMMA)
            && lacks(items[i], SEMICOLON) by {
            assert(is_word(pairs[i].0));
            lemma_pair_write_read(pairs[i]);
        }
    } else {
        assert(items =~= Seq::<Seq<u8>>::empty());
    }
}

/// Reading a written address gives the name and the options back, where the
/// name and the keys are words and no key occurs twice; and the text holds no
/// `;`.
pub proof fn lemma_address_write_read(name: Seq<u8>, pairs: Seq<Pair>)
    requires
        is_word(name),
        forall|i: int| 0 <= i < pairs.len() ==> is_word(#[trigger] pairs[i].0),
        keys_unique(pairs),
    ensures
        parse_address(format_address(name, pairs)) == Some((name, pairs)),
        lacks(format_address(name, pairs), SEMICOLON),
{
    let items = format_pairs(pairs);
    let body = join(items, COMMA);
    let s = format_address(name, pairs);
    lemma_pairs_write_read(pairs);
    assert forall|j: int| 0 <= j < name.len() implies #[trigger] s[j] != COLON by {
        assert(s[j] == name[j]);
    }
    lemma_find_is(s, COLON, name.len() as int);
    assert(s.take(name.len() as int) =~= name);
    assert(s.skip(name.len() as int + 1) =~= body);
    lemma_join_lacks(items, COMMA, SEMICOLON);
    if pairs.len() > 0 {
        lemma_split_join(items, COMMA);
        lemma_join_len(items, COMMA);
    } else {
        assert(pairs =~= Seq::<Pair>::empty());
    }
    assert forall|j: int| 0 <= j < s.len() implies #[trigger] s[j] != SEMICOLON by {
        if j < name.len() {
            assert(s[j] == name[j]);
        } else if j > name.len() {
            assert(s[j] == body[j - name.len() - 1]);
        }
    }
}

/// Whether every byte of `s` is below 128.
pub open spec fn is_ascii_bytes(s: Seq<u8>) -> bool {
    forall|i: int| 0 <= i < s.len() ==> #[trigger] s[i] < 0x80
}

/// What was joined of ASCII items with an ASCII separator is ASCII.
pub proof fn lemma_join_ascii(items: Seq<Seq<u8>>, sep: u8)
    requires
        sep < 0x80,
        forall|i: int| 0 <= i < items.len() ==> is_ascii_bytes(#[trigger] items[i]),
    ensures
        is_ascii_bytes(join(items, sep)),
    decreases items.len(),
{
    if items.len() == 0 {
    } else if items.len() == 1 {
        assert(is_ascii_bytes(items[0]));
    } else {
        let rest = items.skip(1);
        assert forall|i: int| 0 <= i < rest.len() implies is_ascii_bytes(#[trigger] rest[i]) by {
            assert(is_ascii_bytes(items[i + 1]));
        }
        lemma_join_ascii(rest, sep);
        let s = join(items, sep);
        let first = items[0];
        let tail = join(rest, sep);
        assert(is_ascii_bytes(first));
        assert forall|j: int| 0 <= j < s.len() implies #[trigger] s[j] < 0x80 by {
            if j < first.len() {
                assert(s[j] == first[j]);
            } else if j > first.len() {
                assert(s[j] == tail[j - first.len() - 1]);
            }
        }
    }
}

/// The text of an address is ASCII where the name of the transport and the
/// keys are.
pub proof fn lemma_address_ascii(name: Seq<u8>, pairs: Seq<Pair>)
    requires
        is_ascii_bytes(name),
        forall|i: int| 0 <= i < pairs.len() ==> is_ascii_bytes(#[trigger] pairs[i].0),
    ensures
        is_ascii_bytes(format_address(name, pairs)),
{
    let items = format_pairs(pairs);
    assert forall|i: int| 0 <= i < items.len() implies is_ascii_bytes(#[trigger] items[i]) by {
        let k = pairs[i].0;
        let e = encode(pairs[i].1);
        let item = items[i];
        assert(is_ascii_bytes(k));
        lemma_decode_encode(pairs[i].1);
        assert forall|j: int| 0 <= j < item.len() implies #[trigger] item[j] < 0x80 by {
            if j < k.len() {
                assert(item[j] == k[j]);
            } else if j > k.len() {
                assert(item[j] == e[j - k.len() - 1]);
                assert(is_unreserved(e[j - k.len() - 1]) || e[j - k.len() - 1] == 0x25);
            }
        }
    }
    lemma_join_ascii(items, COMMA);
    let body = join(items, COMMA);
    let s = format_address(name, pairs);
    assert forall|j: int| 0 <= j < s.len() implies #[trigger] s[j] < 0x80 by {
        if j < name.len() {
            assert(s[j] == name[j]);
        } else if j > name.len() {
            assert(s[j] == body[j - name.len() - 1]);
        }
    }
}

/// What was joined holds no `b` where no item holds it and the separator is
/// another byte.
pub proof fn lemma_join_lacks(items: Seq<Seq<u8>>, sep: u8, b: u8)
    requires
        sep != b,
        forall|i: int| 0 <= i < items.len() ==> lacks(#[trigger] items[i], b),
    ensures
        lacks(join(items, sep), b),
    decreases items.len(),
{
    if items.len() == 0 {
    } else if items.len() == 1 {
        assert(lacks(items[0], b));
    } else {
        let rest = items.skip(1);
        assert forall|i: int| 0 <= i < rest.len() implies lacks(#[trigger] rest[i], b) by {
            assert(lacks(items[i + 1], b));
        }
        lemma_join_lacks(rest, sep, b);
        let s = join(items, sep);
        let first = items[0];
        let tail = join(rest, sep);
        assert(lacks(first, b));
        assert forall|j: int| 0 <= j < s.len() implies #[trigger] s[j] != b by {
            if j < first.len() {
                assert(s[j] == first[j]);
            } else if j > first.len() {
                assert(s[j] == tail[j - first.len() - 1]);
            }
        }
    }
}

/// What was joined of one item or more, none of them empty, is not empty.
pub proof fn lemma_join_len(items: Seq<Seq<u8>>, sep: u8)
    requires
        items.len() >= 1,
    ensures
        join(items, sep).len() >= items[0].len(),
        items.len() > 1 ==> join(items, sep).len() > 0,
{
}

/// The options of one address: keys and their values, in the order in which
/// they stand in the address.
#[derive(Debug, Clone, PartialEq, Eq)]
pub struct Options {
    pairs: Vec<(Vec<u8>, Vec<u8>)>,
}

impl View for Options {
    type V = Seq<Pair>;

    closed spec fn view(&self) -> Seq<Pair> {
        self.pairs@.map_values(|p: (Vec<u8>, Vec<u8>)| (p.0@, p.1@))
    }
}

impl Options {
    /// No options.
    pub fn new() -> (options: Self)
        ensures
            options@ == Seq::<Pair>::empty(),
    {
        let options = Options { pairs: Vec::new() };
        assert(options@ =~= Seq::<Pair>::empty());
        options
    }

    /// Puts the option with the key `key` and the value `value` behind the
    /// others.
    pub fn add(&mut self, key: Vec<u8>, value: Vec<u8>)
        ensures
            final(self)@ == old(self)@.push((key@, value@)),
    {
        let ghost before = self@;
        self.pairs.push((key, value));
        assert(self@ =~= before.push((key@, value@)));
    }

    /// The number of options.
    pub fn len(&self) -> (n: usize)
        ensures
            n == self@.len(),
    {
        self.pairs.len()
    }

    /// The value of the first option with the key `key`, if there is one.
    pub fn get(&self, key: &[u8]) -> (value: Option<&Vec<u8>>)
        ensures
            lookup(self@, key@) == match value {
                Some(v) => Some(v@),
                None => None,
            },
    {
        let n = self.pairs.len();
        let mut i: usize = 0;
        assert(self@.skip(0) =~= self@);
        while i < n
            invariant
                i <= n,
                n == self.pairs@.len(),
                n == self@.len(),
                lookup(self@, key@) == lookup(self@.skip(i as int), key@),
            decreases n - i,
        {
            let ghost rest = self@.skip(i as int);
            assert(rest[0] == (self.pairs@[i as int].0@, self.pairs@[i as int].1@));
            assert(rest.skip(1) =~= self@.skip(i + 1));
            if bytes_eq(self.pairs[i].0.as_slice(), key) {
                return Some(&self.pairs[i].1);
            }
            i += 1;
        }
        None
    }

    /// Whether two of the options have the same key.
    pub fn has_duplicate_keys(&self) -> (dup: bool)
        ensures
            dup == !keys_unique(self@),
    {
        let n = self.pairs.len();
        let mut j: usize = 0;
        while j < n
            invariant
                j <= n,
                n == self.pairs@.len(),
                forall|a: int, b: int| 0 <= a < b < j ==> #[trigger] self@[a].0 != #[trigger] self@[b].0,
            decreases n - j,
        {
            let mut i: usize = 0;
            while i < j
                invariant
                    i <= j < n,
                    n == self.pairs@.len(),
                    forall|a: int| 0 <= a < i ==> #[trigger] self@[a].0 != self@[j as int].0,
                decreases j - i,
            {
                if bytes_eq(self.pairs[i].0.as_slice(), self.pairs[j].0.as_slice()) {
                    assert(self@[i as int].0 == self@[j as int].0);
                    return true;
                }
                i += 1;
            }
            j += 1;
        }
        false
    }

    /// Appends the options to `out` as they stand in an address, with `,`
    /// between them.
    pub fn write(&self, out: &mut Vec<u8>)
        ensures
            final(out)@ == old(out)@ + join(format_pairs(self@), COMMA),
    {
        let ghost before = out@;
        let ghost items = format_pairs(self@);
        let n = self.pairs.len();
        if n == 0 {
            assert(out@ =~= before + join(items, COMMA));
            return ;
        }
        let mut i: usize = n;
        let mut tail: Vec<u8> = Vec::new();
        while i > 0
            invariant
                i <= n,
                n == self.pairs@.len(),
                items == format_pairs(self@),
                i < n ==> tail@ == join(items.skip(i as int), COMMA),
                i == n ==> tail@.len() == 0,
            decreases i,
        {
            i -= 1;
            let ghost rest = items.skip(i as int);
            let mut item: Vec<u8> = Vec::new();
            append_bytes(&mut item, self.pairs[i].0.as_slice());
            item.push(EQUALS);
            encode_percents(&mut item, self.pairs[i].1.as_slice());
            assert(item@ =~= format_pair(self@[i as int]));
            assert(rest[0] == item@);
            assert(rest.skip(1) =~= items.skip(i + 1));
            if i + 1 < n {
                item.push(COMMA);
                append_bytes(&mut item, tail.as_slice());
            }
            tail = item;
        }
        assert(items.skip(0) =~= items);
        append_bytes(out, tail.as_slice());
    }
}

/// Reads the option that the bytes of `buf` from `from` up to `to` stand for.
fn read_pair(buf: &[u8], from: usize, to: usize) -> (res: Result<(Vec<u8>, Vec<u8>), Error>)
    requires
        from <= to <= buf.len(),
    ensures
        match parse_pair(buf@.subrange(from as int, to as int)) {
            Some(p) => res matches Ok(r) && r.0@ == p.0 && r.1@ == p.1,
            None => res matches Err(e) && e is Address,
        },
{
    let ghost item = buf@.subrange(from as int, to as int);
    let eq = find_byte(buf, from, to, EQUALS);
    if eq >= to {
        return Err(Error::Address("missing = when parsing key/value".to_string()));
    }
    let raw = vstd::slice::slice_subrange(buf, eq + 1, to);
    assert(raw@ =~= item.skip(eq - from + 1));
    let value = match decode_percents(raw) {
        Ok(v) => v,
        Err(e) => {
            return Err(e);
        },
    };
    let key = copy_range(buf, from, eq);
    assert(key@ =~= item.take(eq - from));
    Ok((key, value))
}

/// `rest` with `first` in front of it, where there is a `rest`.
pub open spec fn prepend_pairs(first: Seq<Pair>, rest: Option<Seq<Pair>>) -> Option<Seq<Pair>> {
    match rest {
        Some(r) => Some(first + r),
        None => None,
    }
}

/// Reads the options that the bytes of `buf` from `from` up to `to` stand
/// for, which are one at least, with `,` between them.
fn read_pairs(buf: &[u8], from: usize, to: usize) -> (res: Result<Options, Error>)
    requires
        from <= to <= buf.len(),
    ensures
        match parse_pairs(split(buf@.subrange(from as int, to as int), COMMA)) {
            Some(pairs) => res matches Ok(o) && o@ == pairs,
            None => res matches Err(e) && e is Address,
        },
{
    let ghost whole = parse_pairs(split(buf@.subrange(from as int, to as int), COMMA));
    let mut options = Options::new();
    let mut pos: usize = from;
    let mut done = false;
    while !done
        invariant
            from <= pos <= to <= buf.len(),
            whole == parse_pairs(split(buf@.subrange(from as int, to as int), COMMA)),
            !done ==> whole == prepend_pairs(
                options@,
                parse_pairs(split(buf@.subrange(pos as int, to as int), COMMA)),
            ),
            done ==> whole == Some(options@),
        decreases to - pos + (if done { 0int } else { 1int }),
    {
        let ghost s = buf@.subrange(pos as int, to as int);
        let ghost acc = options@;
        let end = find_byte(buf, pos, to, COMMA);
        let ghost first = buf@.subrange(pos as int, end as int);
        let ghost items = split(s, COMMA);
        proof {
            if end < to {
                assert(s.take(end - pos) =~= first);
                assert(s.skip(end - pos + 1) =~= buf@.subrange(end + 1, to as int));
                assert(items.skip(1) =~= split(buf@.subrange(end + 1, to as int), COMMA));
            } else {
                assert(s =~= first);
                assert(items.skip(1) =~= Seq::<Seq<u8>>::empty());
            }
            assert(items[0] == first);
        }
        let (key, value) = match read_pair(buf, pos, end) {
            Ok(r) => r,
            Err(e) => {
                return Err(e);
            },
        };
        proof {
            let p: Pair = (key@, value@);
            let rest = parse_pairs(items.skip(1));
            assert(parse_pairs(items) == prepend_pairs(seq![p], rest));
            match rest {
                Some(r) => {
                    assert(acc + (seq![p] + r) =~= acc.push(p) + r);
                },
                None => {},
            }
            if end >= to {
                assert(acc.push(p) + Seq::<Pair>::empty() =~= acc.push(p));
            }
        }
        options.add(key, value);
        if end < to {
            pos = end + 1;
        } else {
            done = true;
        }
    }
    Ok(options)
}

/// Reads one address from the bytes of `buf` from `from` up to `to`: the name
/// of its transport, and its options.
///
/// Fails with an `Address` error where the text has no `:`, an option
/// without `=`, a value that cannot be decoded, or a key twice.
pub fn read_address(buf: &[u8], from: usize, to: usize) -> (res: Result<(Vec<u8>, Options), Error>)
    requires
        from <= to <= buf.len(),
    ensures
        match parse_address(buf@.subrange(from as int, to as int)) {
            Some((name, pairs)) => res matches Ok(r) && r.0@ == name && r.1@ == pairs,
            None => res matches Err(e) && e is Address,
        },
{
    let ghost s = buf@.subrange(from as int, to as int);
    let colon = find_byte(buf, from, to, COLON);
    if colon >= to {
        return Err(Error::Address("address has no colon".to_string()));
    }
    let name = copy_range(buf, from, colon);
    assert(name@ =~= s.take(colon - from));
    assert(s.skip(colon - from + 1) =~= buf@.subrange(colon + 1, to as int));
    if colon + 1 == to {
        return Ok((name, Options::new()));
    }
    let options = match read_pairs(buf, colon + 1, to) {
        Ok(o) => o,
        Err(e) => {
            return Err(e);
        },
    };
    if options.has_duplicate_keys() {
        return Err(Error::Address("key specified multiple times".to_string()));
    }
    Ok((name, options))
}

/// Appends one address to `out` as text: the name of its transport, `:`, and
/// its options.
pub fn write_address(out: &mut Vec<u8>, name: &[u8], options: &Options)
    ensures
        final(out)@ == old(out)@ + format_address(name@, options@),
{
    let ghost before = out@;
    append_bytes(out, name);
    out.push(COLON);
    options.write(out);
    assert(out@ =~= before + format_address(name@, options@));
}

} // verus!
