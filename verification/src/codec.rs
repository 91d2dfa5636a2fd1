//! The structured-text form of a split record, with a verified encoder and
//! parser.
//!
//! Every value is length- or terminator-delimited, so arbitrary names
//! (including separators and line breaks) survive the trip: a number is its
//! decimal digits closed by `;`, a string is its character count followed by
//! exactly that many characters, and the severed-link list is its count
//! followed by its entries.  Parsing an encoded record gives back the record
//! itself; see [`lemma_record_roundtrip`].

use vstd::prelude::*;
use vstd::string::StringExecFns;
use vstd::string::StrSliceExecFns;
use crate::state::{SavedLink, SavedLinkV, SplitState, SplitStateV};
use crate::text::{push_char, u64_to_string, spec_dec, spec_is_digit, spec_digit_val, spec_val};
use crate::text::{lemma_dec_digits, lemma_val_dec};

verus! {

// ---------------------------------------------------------------------------
// Encoding
// ---------------------------------------------------------------------------

/// A number: its decimal digits closed by a semicolon.
pub open spec fn spec_enc_nat(n: nat) -> Seq<char> {
    spec_dec(n).push(';')
}

/// A string: its character count, then exactly that many characters.
pub open spec fn spec_enc_str(t: Seq<char>) -> Seq<char> {
    spec_enc_nat(t.len()) + t
}

/// One severed pair: its two port addresses.
pub open spec fn spec_enc_link(l: SavedLinkV) -> Seq<char> {
    spec_enc_str(l.output_port) + spec_enc_str(l.input_port)
}

/// The entries of the severed-link list, in order.
pub open spec fn spec_enc_links_items(ls: Seq<SavedLinkV>) -> Seq<char>
    decreases ls.len(),
{
    if ls.len() == 0 {
        Seq::empty()
    } else {
        spec_enc_links_items(ls.drop_last()) + spec_enc_link(ls.last())
    }
}

/// The severed-link list: its count, then its entries.
pub open spec fn spec_enc_links(ls: Seq<SavedLinkV>) -> Seq<char> {
    spec_enc_nat(ls.len()) + spec_enc_links_items(ls)
}

/// A whole record, fields in a fixed order.
pub open spec fn spec_enc_record(v: SplitStateV) -> Seq<char> {
    spec_enc_str(v.name) + spec_enc_nat(v.source_node_id as nat) + spec_enc_str(v.source_node_name)
        + spec_enc_str(v.source_application_name) + spec_enc_str(v.recording_loopback_name)
        + spec_enc_str(v.local_loopback_name) + spec_enc_nat(v.recording_dest_node_id as nat)
        + spec_enc_str(v.recording_dest_media_name) + spec_enc_str(
        v.recording_dest_application_name,
    ) + spec_enc_str(v.original_output_node_name) + spec_enc_links(v.original_links)
        + spec_enc_nat(v.loopback_to_recording_pid as nat) + spec_enc_nat(
        v.loopback_to_local_pid as nat,
    ) + spec_enc_nat(v.created_at as nat)
}

fn append_nat(s: &mut String, n: u64)
    ensures
        final(s)@ == old(s)@ + spec_enc_nat(n as nat),
{
    let d = u64_to_string(n);
    s.append(d.as_str());
    push_char(s, ';');
    proof {
        assert(s@ =~= old(s)@ + spec_enc_nat(n as nat));
    }
}

fn append_str_field(s: &mut String, t: &str)
    ensures
        final(s)@ == old(s)@ + spec_enc_str(t@),
{
    let n = t.unicode_len();
    append_nat(s, n as u64);
    s.append(t);
    proof {
        assert(s@ =~= old(s)@ + spec_enc_str(t@));
    }
}

/// Renders a record in the store's structured-text form.
pub fn encode_record(st: &SplitState) -> (r: String)
    ensures
        r@ == spec_enc_record(st@),
{
    let mut s = String::new();
    append_str_field(&mut s, st.name.as_str());
    append_nat(&mut s, st.source_node_id as u64);
    append_str_field(&mut s, st.source_node_name.as_str());
    append_str_field(&mut s, st.source_application_name.as_str());
    append_str_field(&mut s, st.recording_loopback_name.as_str());
    append_str_field(&mut s, st.local_loopback_name.as_str());
    append_nat(&mut s, st.recording_dest_node_id as u64);
    append_str_field(&mut s, st.recording_dest_media_name.as_str());
    append_str_field(&mut s, st.recording_dest_application_name.as_str());
    append_str_field(&mut s, st.original_output_node_name.as_str());
    let ghost head = s@;
    let ghost lv = st.original_links@.map_values(|l: SavedLink| l@);
    append_nat(&mut s, st.original_links.len() as u64);
    let mut i: usize = 0;
    while i < st.original_links.len()
        invariant
            i <= st.original_links@.len(),
            lv == st.original_links@.map_values(|l: SavedLink| l@),
            lv.len() == st.original_links@.len(),
            s@ =~= head + spec_enc_nat(lv.len()) + spec_enc_links_items(lv.take(i as int)),
        decreases st.original_links@.len() - i,
    {
        proof {
            assert(lv[i as int] == st.original_links@[i as int]@);
        }
        append_str_field(&mut s, st.original_links[i].output_port.as_str());
        append_str_field(&mut s, st.original_links[i].input_port.as_str());
        proof {
            assert(lv.take(i + 1 as int).drop_last() =~= lv.take(i as int));
            assert(lv.take(i + 1 as int).last() == lv[i as int]);
            assert(s@ =~= head + spec_enc_nat(lv.len()) + spec_enc_links_items(
                lv.take(i + 1 as int),
            ));
        }
        i = i + 1;
    }
    proof {
        assert(lv.take(lv.len() as int) =~= lv);
        assert(s@ =~= head + spec_enc_links(lv));
    }
    append_nat(&mut s, st.loopback_to_recording_pid as u64);
    append_nat(&mut s, st.loopback_to_local_pid as u64);
    append_nat(&mut s, st.created_at);
    proof {
        assert(s@ =~= spec_enc_record(st@));
    }
    s
}

// ---------------------------------------------------------------------------
// Parsing
// ---------------------------------------------------------------------------

/// The number of consecutive digit characters starting at `i`.
pub open spec fn spec_digit_run(s: Seq<char>, i: int) -> int
    decreases s.len() - i,
{
    if i < 0 || i >= s.len() {
        0
    } else if spec_is_digit(s[i]) {
        1 + spec_digit_run(s, i + 1)
    } else {
        0
    }
}

/// A number at `i`: a non-empty digit run whose value fits the record's
/// number width, closed by a semicolon.  Yields the value and the position
/// after the semicolon.
pub open spec fn spec_parse_nat(s: Seq<char>, i: int) -> Option<(nat, int)> {
    let k = spec_digit_run(s, i);
    if i < 0 || i > s.len() {
        None
    } else if k == 0 {
        None
    } else {
        let v = spec_val(s.subrange(i, i + k));
        if v > u64::MAX as int {
            None
        } else if i + k < s.len() && s[i + k] == ';' {
            Some(((v as nat), i + k + 1))
        } else {
            None
        }
    }
}

/// A string at `i`: its character count, then exactly that many characters.
pub open spec fn spec_parse_str(s: Seq<char>, i: int) -> Option<(Seq<char>, int)> {
    match spec_parse_nat(s, i) {
        Some((n, j)) => if j + n <= s.len() {
            Some((s.subrange(j, j + n), j + n))
        } else {
            None
        },
        None => None,
    }
}

/// A number at `i` that must fit an id's width.
pub open spec fn spec_parse_u32(s: Seq<char>, i: int) -> Option<(u32, int)> {
    match spec_parse_nat(s, i) {
        Some((v, j)) => if v <= u32::MAX {
            Some(((v as u32), j))
        } else {
            None
        },
        None => None,
    }
}

/// One severed pair at `i`: its two port addresses.
pub open spec fn spec_parse_link(s: Seq<char>, i: int) -> Option<(SavedLinkV, int)> {
    match spec_parse_str(s, i) {
        Some((o, j)) => match spec_parse_str(s, j) {
            Some((p, j2)) => Some((SavedLinkV { output_port: o, input_port: p }, j2)),
            None => None,
        },
        None => None,
    }
}

/// `count` severed pairs at `i`, in order.
pub open spec fn spec_parse_links_items(s: Seq<char>, i: int, count: nat) -> Option<
    (Seq<SavedLinkV>, int),
>
    decreases count,
{
    if count == 0 {
        Some((Seq::empty(), i))
    } else {
        match spec_parse_link(s, i) {
            Some((l, j)) => match spec_parse_links_items(s, j, (count - 1) as nat) {
                Some((ls, j2)) => Some((seq![l] + ls, j2)),
                None => None,
            },
            None => None,
        }
    }
}

/// The severed-link list at `i`: its count, then its entries.
pub open spec fn spec_parse_links(s: Seq<char>, i: int) -> Option<(Seq<SavedLinkV>, int)> {
    match spec_parse_nat(s, i) {
        Some((c, j)) => spec_parse_links_items(s, j, c),
        None => None,
    }
}

/// A whole record: the fields in their fixed order, consuming the whole
/// text.
pub open spec fn spec_parse_record(s: Seq<char>) -> Option<SplitStateV> {
    match spec_parse_str(s, 0) {
        Some((name, p1)) => match spec_parse_u32(s, p1) {
            Some((source_node_id, p2)) => match spec_parse_str(s, p2) {
                Some((source_node_name, p3)) => match spec_parse_str(s, p3) {
                    Some((source_application_name, p4)) => match spec_parse_str(s, p4) {
                        Some((recording_loopback_name, p5)) => match spec_parse_str(s, p5) {
                            Some((local_loopback_name, p6)) => match spec_parse_u32(s, p6) {
                                Some((recording_dest_node_id, p7)) => match spec_parse_str(s, p7) {
                                    Some((recording_dest_media_name, p8)) => match spec_parse_str(
                                        s,
                                        p8,
                                    ) {
                                        Some((recording_dest_application_name, p9)) => match spec_parse_str(
                                            s,
                                            p9,
                                        ) {
                                            Some((original_output_node_name, p10)) => match spec_parse_links(
                                                s,
                                                p10,
                                            ) {
                                                Some((original_links, p11)) => match spec_parse_u32(
                                                    s,
                                                    p11,
                                                ) {
                                                    Some((loopback_to_recording_pid, p12)) => match spec_parse_u32(
                                                        s,
                                                        p12,
                                                    ) {
                                                        Some((loopback_to_local_pid, p13)) => match spec_parse_nat(
                                                            s,
                                                            p13,
                                                        ) {
                                                            Some((created_at, p14)) => if p14
                                                                == s.len() {
                                                                Some(
                                                                    SplitStateV {
                                                                        name,
                                                                        source_node_id,
                                                                        source_node_name,
                                                                        source_application_name,
                                                                        recording_loopback_name,
                                                                        local_loopback_name,
                                                                        recording_dest_node_id,
                                                                        recording_dest_media_name,
                                                                        recording_dest_application_name,
                                                                        original_output_node_name,
                                                                        original_links,
                                                                        loopback_to_recording_pid,
                                                                        loopback_to_local_pid,
                                                                        created_at: (
                                                                        created_at as u64),
                                                                    },
                                                                )
                                                            } else {
                                                                None
                                                            },
                                                            None => None,
                                                        },
                                                        None => None,
                                                    },
                                                    None => None,
                                                },
                                                None => None,
                                            },
                                            None => None,
                                        },
                                        None => None,
                                    },
                                    None => None,
                                },
                                None => None,
                            },
                            None => None,
                        },
                        None => None,
                    },
                    None => None,
                },
                None => None,
            },
            None => None,
        },
        None => None,
    }
}

// ---------------------------------------------------------------------------
// The round trip
// ---------------------------------------------------------------------------

/// A run of digits closed by a non-digit (or the end) has exactly that
/// length.
pub proof fn lemma_run_of_digits(s: Seq<char>, i: int, j: int)
    requires
        0 <= i <= j <= s.len(),
        forall|m: int| i <= m < j ==> spec_is_digit(#[trigger] s[m]),
        j == s.len() || !spec_is_digit(s[j]),
    ensures
        spec_digit_run(s, i) == j - i,
    decreases j - i,
{
    if i < j {
        lemma_run_of_digits(s, i + 1, j);
    }
}

/// An encoded number parses back to itself.
pub proof fn lemma_parse_nat_enc(s: Seq<char>, i: int, n: nat)
    requires
        0 <= i,
        n <= u64::MAX,
        i + spec_enc_nat(n).len() <= s.len(),
        s.subrange(i, i + spec_enc_nat(n).len()) == spec_enc_nat(n),
    ensures
        spec_parse_nat(s, i) == Some((n, i + spec_enc_nat(n).len())),
{
    let d = spec_dec(n);
    let dlen = d.len() as int;
    lemma_dec_digits(n);
    assert(spec_enc_nat(n).len() == dlen + 1);
    assert forall|m: int| i <= m < i + dlen implies spec_is_digit(#[trigger] s[m]) by {
        assert(s[m] == s.subrange(i, i + dlen + 1)[m - i]);
        assert(spec_enc_nat(n)[m - i] == d[m - i]);
    }
    assert(s[i + dlen] == spec_enc_nat(n)[dlen]) by {
        assert(s[i + dlen] == s.subrange(i, i + dlen + 1)[dlen]);
    }
    assert(s[i + dlen] == ';');
    assert(!spec_is_digit(';'));
    lemma_run_of_digits(s, i, i + dlen);
    assert(spec_digit_run(s, i) == dlen);
    assert(s.subrange(i, i + dlen) =~= d) by {
        assert forall|m: int| 0 <= m < dlen implies s.subrange(i, i + dlen)[m] == d[m] by {
            assert(s[i + m] == s.subrange(i, i + dlen + 1)[m]);
            assert(spec_enc_nat(n)[m] == d[m]);
        }
    }
    lemma_val_dec(n);
    assert(i + dlen < s.len());
}

/// An encoded string parses back to itself.
pub proof fn lemma_parse_str_enc(s: Seq<char>, i: int, t: Seq<char>)
    requires
        0 <= i,
        t.len() <= u64::MAX,
        i + spec_enc_str(t).len() <= s.len(),
        s.subrange(i, i + spec_enc_str(t).len()) == spec_enc_str(t),
    ensures
        spec_parse_str(s, i) == Some((t, i + spec_enc_str(t).len())),
{
    let en = spec_enc_nat(t.len());
    let el = spec_enc_str(t).len() as int;
    assert(el == en.len() + t.len());
    assert(s.subrange(i, i + en.len() as int) =~= en) by {
        assert forall|m: int| 0 <= m < en.len() implies s.subrange(i, i + en.len() as int)[m]
            == en[m] by {
            assert(s[i + m] == s.subrange(i, i + el)[m]);
            assert(spec_enc_str(t)[m] == en[m]);
        }
    }
    lemma_parse_nat_enc(s, i, t.len());
    let j = i + en.len() as int;
    assert(j + t.len() <= s.len());
    assert(s.subrange(j, j + t.len() as int) =~= t) by {
        assert forall|m: int| 0 <= m < t.len() implies s.subrange(j, j + t.len() as int)[m]
            == t[m] by {
            assert(s[j + m] == s.subrange(i, i + el)[en.len() + m]);
            assert(spec_enc_str(t)[en.len() + m] == t[m]);
        }
    }
}

/// An encoded id parses back to itself.
pub proof fn lemma_parse_u32_enc(s: Seq<char>, i: int, x: u32)
    requires
        0 <= i,
        i + spec_enc_nat(x as nat).len() <= s.len(),
        s.subrange(i, i + spec_enc_nat(x as nat).len()) == spec_enc_nat(x as nat),
    ensures
        spec_parse_u32(s, i) == Some((x, i + spec_enc_nat(x as nat).len())),
{
    lemma_parse_nat_enc(s, i, x as nat);
}

/// An encoded pair parses back to itself.
pub proof fn lemma_parse_link_enc(s: Seq<char>, i: int, l: SavedLinkV)
    requires
        0 <= i,
        l.output_port.len() <= u64::MAX,
        l.input_port.len() <= u64::MAX,
        i + spec_enc_link(l).len() <= s.len(),
        s.subrange(i, i + spec_enc_link(l).len()) == spec_enc_link(l),
    ensures
        spec_parse_link(s, i) == Some((l, i + spec_enc_link(l).len())),
{
    let e1 = spec_enc_str(l.output_port);
    let e2 = spec_enc_str(l.input_port);
    let el = spec_enc_link(l).len() as int;
    assert(el == e1.len() + e2.len());
    assert(s.subrange(i, i + e1.len() as int) =~= e1) by {
        assert forall|m: int| 0 <= m < e1.len() implies s.subrange(i, i + e1.len() as int)[m]
            == e1[m] by {
            assert(s[i + m] == s.subrange(i, i + el)[m]);
            assert(spec_enc_link(l)[m] == e1[m]);
        }
    }
    lemma_parse_str_enc(s, i, l.output_port);
    let j = i + e1.len() as int;
    assert(s.subrange(j, j + e2.len() as int) =~= e2) by {
        assert forall|m: int| 0 <= m < e2.len() implies s.subrange(j, j + e2.len() as int)[m]
            == e2[m] by {
            assert(s[j + m] == s.subrange(i, i + el)[e1.len() + m]);
            assert(spec_enc_link(l)[e1.len() + m] == e2[m]);
        }
    }
    lemma_parse_str_enc(s, j, l.input_port);
}

/// Every pair of the list fits the record's number widths.
pub open spec fn spec_links_bounded(ls: Seq<SavedLinkV>) -> bool {
    forall|i: int|
        0 <= i < ls.len() ==> (#[trigger] ls[i]).output_port.len() <= u64::MAX
            && ls[i].input_port.len() <= u64::MAX
}

/// The entry encoding can also be read off the front.
pub proof fn lemma_enc_items_first(ls: Seq<SavedLinkV>)
    requires
        ls.len() > 0,
    ensures
        spec_enc_links_items(ls) == spec_enc_link(ls[0]) + spec_enc_links_items(ls.drop_first()),
    decreases ls.len(),
{
    if ls.len() == 1 {
        assert(ls.drop_last() =~= Seq::<SavedLinkV>::empty());
        assert(ls.drop_first() =~= Seq::<SavedLinkV>::empty());
        assert(spec_enc_links_items(ls) =~= spec_enc_link(ls[0]) + spec_enc_links_items(
            ls.drop_first(),
        ));
    } else {
        lemma_enc_items_first(ls.drop_last());
        assert(ls.drop_last()[0] == ls[0]);
        assert(ls.drop_last().drop_first() =~= ls.drop_first().drop_last());
        assert(ls.drop_first().last() == ls.last());
        assert(spec_enc_links_items(ls) == spec_enc_links_items(ls.drop_last()) + spec_enc_link(
            ls.last(),
        ));
        assert(spec_enc_links_items(ls.drop_first()) == spec_enc_links_items(
            ls.drop_first().drop_last(),
        ) + spec_enc_link(ls.drop_first().last()));
        assert(spec_enc_links_items(ls) =~= spec_enc_link(ls[0]) + spec_enc_links_items(
            ls.drop_first(),
        ));
    }
}

/// An encoded entry list parses back to itself.
pub proof fn lemma_parse_links_items_enc(s: Seq<char>, i: int, ls: Seq<SavedLinkV>)
    requires
        0 <= i,
        spec_links_bounded(ls),
        i + spec_enc_links_items(ls).len() <= s.len(),
        s.subrange(i, i + spec_enc_links_items(ls).len()) == spec_enc_links_items(ls),
    ensures
        spec_parse_links_items(s, i, ls.len()) == Some(
            (ls, i + spec_enc_links_items(ls).len()),
        ),
    decreases ls.len(),
{
    if ls.len() == 0 {
        assert(ls =~= Seq::<SavedLinkV>::empty());
    } else {
        lemma_enc_items_first(ls);
        let e1 = spec_enc_link(ls[0]);
        let rest = spec_enc_links_items(ls.drop_first());
        let el = spec_enc_links_items(ls).len() as int;
        assert(el == e1.len() + rest.len());
        assert(s.subrange(i, i + e1.len() as int) =~= e1) by {
            assert forall|m: int| 0 <= m < e1.len() implies s.subrange(i, i + e1.len() as int)[m]
                == e1[m] by {
                assert(s[i + m] == s.subrange(i, i + el)[m]);
                assert(spec_enc_links_items(ls)[m] == e1[m]);
            }
        }
        lemma_parse_link_enc(s, i, ls[0]);
        let j = i + e1.len() as int;
        assert(s.subrange(j, j + rest.len() as int) =~= rest) by {
            assert forall|m: int| 0 <= m < rest.len() implies s.subrange(
                j,
                j + rest.len() as int,
            )[m] == rest[m] by {
                assert(s[j + m] == s.subrange(i, i + el)[e1.len() + m]);
                assert(spec_enc_links_items(ls)[e1.len() + m] == rest[m]);
            }
        }
        assert(spec_links_bounded(ls.drop_first())) by {
            assert forall|m: int| 0 <= m < ls.drop_first().len() implies (#[trigger] ls.drop_first()[m]).output_port.len()
                <= u64::MAX && ls.drop_first()[m].input_port.len() <= u64::MAX by {
                assert(ls.drop_first()[m] == ls[m + 1]);
            }
        }
        lemma_parse_links_items_enc(s, j, ls.drop_first());
        assert(seq![ls[0]] + ls.drop_first() =~= ls);
    }
}

/// An encoded severed-link list parses back to itself.
pub proof fn lemma_parse_links_enc(s: Seq<char>, i: int, ls: Seq<SavedLinkV>)
    requires
        0 <= i,
        ls.len() <= u64::MAX,
        spec_links_bounded(ls),
        i + spec_enc_links(ls).len() <= s.len(),
        s.subrange(i, i + spec_enc_links(ls).len()) == spec_enc_links(ls),
    ensures
        spec_parse_links(s, i) == Some((ls, i + spec_enc_links(ls).len())),
{
    let en = spec_enc_nat(ls.len());
    let items = spec_enc_links_items(ls);
    let el = spec_enc_links(ls).len() as int;
    assert(el == en.len() + items.len());
    assert(s.subrange(i, i + en.len() as int) =~= en) by {
        assert forall|m: int| 0 <= m < en.len() implies s.subrange(i, i + en.len() as int)[m]
            == en[m] by {
            assert(s[i + m] == s.subrange(i, i + el)[m]);
            assert(spec_enc_links(ls)[m] == en[m]);
        }
    }
    lemma_parse_nat_enc(s, i, ls.len());
    let j = i + en.len() as int;
    assert(s.subrange(j, j + items.len() as int) =~= items) by {
        assert forall|m: int| 0 <= m < items.len() implies s.subrange(
            j,
            j + items.len() as int,
        )[m] == items[m] by {
            assert(s[j + m] == s.subrange(i, i + el)[en.len() + m]);
            assert(spec_enc_links(ls)[en.len() + m] == items[m]);
        }
    }
    lemma_parse_links_items_enc(s, j, ls);
}

/// Every field of the record fits the encoding's number width.
pub open spec fn spec_record_bounded(v: SplitStateV) -> bool {
    &&& v.name.len() <= u64::MAX
    &&& v.source_node_name.len() <= u64::MAX
    &&& v.source_application_name.len() <= u64::MAX
    &&& v.recording_loopback_name.len() <= u64::MAX
    &&& v.local_loopback_name.len() <= u64::MAX
    &&& v.recording_dest_media_name.len() <= u64::MAX
    &&& v.recording_dest_application_name.len() <= u64::MAX
    &&& v.original_output_node_name.len() <= u64::MAX
    &&& v.original_links.len() <= u64::MAX
    &&& spec_links_bounded(v.original_links)
}

/// Parsing an encoded record gives back the record itself, severed-link
/// list included: what `save` writes, `load` reads back, field for field.
#[verifier::rlimit(100)]
pub proof fn lemma_record_roundtrip(v: SplitStateV)
    requires
        spec_record_bounded(v),
    ensures
        spec_parse_record(spec_enc_record(v)) == Some(v),
{
    let s = spec_enc_record(v);
    let e1 = spec_enc_str(v.name);
    let e2 = spec_enc_nat(v.source_node_id as nat);
    let e3 = spec_enc_str(v.source_node_name);
    let e4 = spec_enc_str(v.source_application_name);
    let e5 = spec_enc_str(v.recording_loopback_name);
    let e6 = spec_enc_str(v.local_loopback_name);
    let e7 = spec_enc_nat(v.recording_dest_node_id as nat);
    let e8 = spec_enc_str(v.recording_dest_media_name);
    let e9 = spec_enc_str(v.recording_dest_application_name);
    let e10 = spec_enc_str(v.original_output_node_name);
    let e11 = spec_enc_links(v.original_links);
    let e12 = spec_enc_nat(v.loopback_to_recording_pid as nat);
    let e13 = spec_enc_nat(v.loopback_to_local_pid as nat);
    let e14 = spec_enc_nat(v.created_at as nat);
    let o1 = e1.len() as int;
    let o2 = o1 + e2.len();
    let o3 = o2 + e3.len();
    let o4 = o3 + e4.len();
    let o5 = o4 + e5.len();
    let o6 = o5 + e6.len();
    let o7 = o6 + e7.len();
    let o8 = o7 + e8.len();
    let o9 = o8 + e9.len();
    let o10 = o9 + e10.len();
    let o11 = o10 + e11.len();
    let o12 = o11 + e12.len();
    let o13 = o12 + e13.len();
    let o14 = o13 + e14.len();
    assert(s.len() == o14);
    assert(s.subrange(0, o1) =~= e1);
    assert(s.subrange(o1, o2) =~= e2);
    assert(s.subrange(o2, o3) =~= e3);
    assert(s.subrange(o3, o4) =~= e4);
    assert(s.subrange(o4, o5) =~= e5);
    assert(s.subrange(o5, o6) =~= e6);
    assert(s.subrange(o6, o7) =~= e7);
    assert(s.subrange(o7, o8) =~= e8);
    assert(s.subrange(o8, o9) =~= e9);
    assert(s.subrange(o9, o10) =~= e10);
    assert(s.subrange(o10, o11) =~= e11);
    assert(s.subrange(o11, o12) =~= e12);
    assert(s.subrange(o12, o13) =~= e13);
    assert(s.subrange(o13, o14) =~= e14);
    lemma_parse_str_enc(s, 0, v.name);
    lemma_parse_u32_enc(s, o1, v.source_node_id);
    lemma_parse_str_enc(s, o2, v.source_node_name);
    lemma_parse_str_enc(s, o3, v.source_application_name);
    lemma_parse_str_enc(s, o4, v.recording_loopback_name);
    lemma_parse_str_enc(s, o5, v.local_loopback_name);
    lemma_parse_u32_enc(s, o6, v.recording_dest_node_id);
    lemma_parse_str_enc(s, o7, v.recording_dest_media_name);
    lemma_parse_str_enc(s, o8, v.recording_dest_application_name);
    lemma_parse_str_enc(s, o9, v.original_output_node_name);
    lemma_parse_links_enc(s, o10, v.original_links);
    lemma_parse_u32_enc(s, o11, v.loopback_to_recording_pid);
    lemma_parse_u32_enc(s, o12, v.loopback_to_local_pid);
    lemma_parse_nat_enc(s, o13, v.created_at as nat);
}

// ---------------------------------------------------------------------------
// Executable parsing
// ---------------------------------------------------------------------------

/// Any digit string reads as a non-negative value.
pub proof fn lemma_val_nonneg(s: Seq<char>)
    ensures
        spec_val(s) >= 0,
    decreases s.len(),
{
    if s.len() > 0 {
        lemma_val_nonneg(s.drop_last());
    }
}

/// A longer digit run reads as at least the value of any of its prefixes.
pub proof fn lemma_val_mono(s: Seq<char>, i: int, a: int, b: int)
    requires
        0 <= i,
        0 <= a <= b,
        i + b <= s.len(),
    ensures
        spec_val(s.subrange(i, i + a)) <= spec_val(s.subrange(i, i + b)),
    decreases b - a,
{
    if a < b {
        lemma_val_mono(s, i, a, b - 1);
        let w = s.subrange(i, i + b);
        assert(w.drop_last() =~= s.subrange(i, i + b - 1));
        lemma_val_nonneg(w.drop_last());
        assert(spec_val(w) == spec_val(w.drop_last()) * 10 + spec_digit_val(w.last()));
    }
}

fn digit_of(c: char) -> (r: Option<u64>)
    ensures
        (r is Some) == spec_is_digit(c),
        (r matches Some(d) ==> d == spec_digit_val(c) && d < 10),
{
    if c == '0' {
        Some(0)
    } else if c == '1' {
        Some(1)
    } else if c == '2' {
        Some(2)
    } else if c == '3' {
        Some(3)
    } else if c == '4' {
        Some(4)
    } else if c == '5' {
        Some(5)
    } else if c == '6' {
        Some(6)
    } else if c == '7' {
        Some(7)
    } else if c == '8' {
        Some(8)
    } else if c == '9' {
        Some(9)
    } else {
        None
    }
}

fn parse_nat_at(s: &str, i: usize) -> (r: Option<(u64, usize)>)
    requires
        i <= s@.len(),
    ensures
        (r matches Some(p) ==> spec_parse_nat(s@, i as int) == Some((p.0 as nat, p.1 as int))),
        (r matches Some(p) ==> p.1 <= s@.len()),
        (r is None ==> spec_parse_nat(s@, i as int) is None),
{
    let n = s.unicode_len();
    let mut c: usize = 0;
    loop
        invariant_except_break
            i <= n,
            n == s@.len(),
            c <= n - i,
            forall|m: int| i <= m < i + c ==> spec_is_digit(#[trigger] s@[m]),
        ensures
            i + c <= n,
            n == s@.len(),
            forall|m: int| i <= m < i + c ==> spec_is_digit(#[trigger] s@[m]),
            i + c == n || !spec_is_digit(s@[i + c]),
        decreases n - i - c,
    {
        if i + c >= n {
            break;
        }
        let ch = s.get_char(i + c);
        match digit_of(ch) {
            Some(_) => {
                c = c + 1;
            },
            None => {
                break;
            },
        }
    }
    proof {
        lemma_run_of_digits(s@, i as int, (i + c) as int);
    }
    if c == 0 {
        return None;
    }
    let mut acc: u64 = 0;
    let mut m: usize = 0;
    while m < c
        invariant
            m <= c,
            i + c <= n,
            n == s@.len(),
            c == spec_digit_run(s@, i as int),
            c > 0,
            forall|m2: int| i <= m2 < i + c ==> spec_is_digit(#[trigger] s@[m2]),
            acc as int == spec_val(s@.subrange(i as int, (i + m) as int)),
        decreases c - m,
    {
        let ch = s.get_char(i + m);
        let d = match digit_of(ch) {
            Some(d) => d,
            None => {
                proof {
                    assert(spec_is_digit(s@[(i + m) as int]));
                    assert(false);
                }
                return None;
            },
        };
        let wide: u128 = (acc as u128) * 10 + (d as u128);
        if wide > u64::MAX as u128 {
            proof {
                let pm = s@.subrange(i as int, (i + m) as int);
                let pm1 = s@.subrange(i as int, (i + m + 1) as int);
                assert(pm1.drop_last() =~= pm);
                assert(pm1.last() == s@[(i + m) as int]);
                assert(spec_val(pm1) == acc as int * 10 + d);
                lemma_val_mono(s@, i as int, (m + 1) as int, c as int);
                assert(spec_val(s@.subrange(i as int, (i + c) as int)) > u64::MAX as int);
            }
            return None;
        }
        let acc2: u64 = wide as u64;
        proof {
            let pm = s@.subrange(i as int, (i + m) as int);
            let pm1 = s@.subrange(i as int, (i + m + 1) as int);
            assert(pm1.drop_last() =~= pm);
            assert(pm1.last() == s@[(i + m) as int]);
            assert(acc2 as int == spec_val(pm1));
        }
        acc = acc2;
        m = m + 1;
    }
    if i + c < n {
        let ch = s.get_char(i + c);
        if ch == ';' {
            return Some((acc, i + c + 1));
        }
    }
    None
}

fn parse_str_at(s: &str, i: usize) -> (r: Option<(String, usize)>)
    requires
        i <= s@.len(),
    ensures
        (r matches Some(p) ==> spec_parse_str(s@, i as int) == Some((p.0@, p.1 as int))),
        (r matches Some(p) ==> p.1 <= s@.len()),
        (r is None ==> spec_parse_str(s@, i as int) is None),
{
    match parse_nat_at(s, i) {
        Some((nv, j)) => {
            let n = s.unicode_len();
            if nv <= (n - j) as u64 {
                let len = nv as usize;
                let t = s.substring_char(j, j + len).to_owned();
                Some((t, j + len))
            } else {
                None
            }
        },
        None => None,
    }
}

fn parse_u32_at(s: &str, i: usize) -> (r: Option<(u32, usize)>)
    requires
        i <= s@.len(),
    ensures
        (r matches Some(p) ==> spec_parse_u32(s@, i as int) == Some((p.0, p.1 as int))),
        (r matches Some(p) ==> p.1 <= s@.len()),
        (r is None ==> spec_parse_u32(s@, i as int) is None),
{
    match parse_nat_at(s, i) {
        Some((v, j)) => {
            if v <= u32::MAX as u64 {
                Some((v as u32, j))
            } else {
                None
            }
        },
        None => None,
    }
}

fn parse_link_at(s: &str, i: usize) -> (r: Option<(SavedLink, usize)>)
    requires
        i <= s@.len(),
    ensures
        (r matches Some(p) ==> spec_parse_link(s@, i as int) == Some((p.0@, p.1 as int))),
        (r matches Some(p) ==> p.1 <= s@.len()),
        (r is None ==> spec_parse_link(s@, i as int) is None),
{
    match parse_str_at(s, i) {
        Some((o, j)) => match parse_str_at(s, j) {
            Some((p, j2)) => Some((SavedLink { output_port: o, input_port: p }, j2)),
            None => None,
        },
        None => None,
    }
}

fn parse_links_at(s: &str, i: usize) -> (r: Option<(Vec<SavedLink>, usize)>)
    requires
        i <= s@.len(),
    ensures
        (r matches Some(p) ==> spec_parse_links(s@, i as int) == Some(
            (p.0@.map_values(|l: SavedLink| l@), p.1 as int),
        )),
        (r matches Some(p) ==> p.1 <= s@.len()),
        (r is None ==> spec_parse_links(s@, i as int) is None),
{
    let (cnt, start) = match parse_nat_at(s, i) {
        Some(p) => p,
        None => {
            return None;
        },
    };
    let mut acc: Vec<SavedLink> = Vec::new();
    let mut cur: usize = start;
    let mut done: u64 = 0;
    while done < cnt
        invariant
            done <= cnt,
            cur <= s@.len(),
            acc@.len() == done,
            spec_parse_nat(s@, i as int) == Some((cnt as nat, start as int)),
            (match spec_parse_links_items(s@, cur as int, (cnt - done) as nat) {
                Some((ls, je)) => spec_parse_links_items(s@, start as int, cnt as nat) == Some(
                    (acc@.map_values(|l: SavedLink| l@) + ls, je),
                ),
                None => spec_parse_links_items(s@, start as int, cnt as nat) is None,
            }),
        decreases cnt - done,
    {
        let ghost acc_old = acc@;
        let (l, j2) = match parse_link_at(s, cur) {
            Some(p) => p,
            None => {
                return None;
            },
        };
        let ghost lv = l@;
        acc.push(l);
        proof {
            assert(acc@ =~= acc_old.push(acc@[acc_old.len() as int]));
            assert(acc@.map_values(|l2: SavedLink| l2@) =~= acc_old.map_values(
                |l2: SavedLink| l2@,
            ).push(lv));
            assert(seq![lv].add(Seq::<SavedLinkV>::empty()) =~= seq![lv]);
        }
        cur = j2;
        done = done + 1;
        proof {
            let rem = (cnt - done) as nat;
            match spec_parse_links_items(s@, cur as int, rem) {
                Some((ls, je)) => {
                    assert(acc_old.map_values(|l2: SavedLink| l2@) + (seq![lv] + ls)
                        =~= acc@.map_values(|l2: SavedLink| l2@) + ls);
                },
                None => {},
            }
        }
    }
    proof {
        assert(acc@.map_values(|l2: SavedLink| l2@) + Seq::<SavedLinkV>::empty() =~= acc@.map_values(
            |l2: SavedLink| l2@,
        ));
    }
    Some((acc, cur))
}

/// Reads a record back from the store's structured-text form; `None` on any
/// malformed text.
pub fn parse_record(s: &str) -> (r: Option<SplitState>)
    ensures
        (r matches Some(st) ==> spec_parse_record(s@) == Some(st@)),
        (r is None ==> spec_parse_record(s@) is None),
{
    let (name, p1) = match parse_str_at(s, 0) {
        Some(p) => p,
        None => {
            return None;
        },
    };
    let (source_node_id, p2) = match parse_u32_at(s, p1) {
        Some(p) => p,
        None => {
            return None;
        },
    };
    let (source_node_name, p3) = match parse_str_at(s, p2) {
        Some(p) => p,
        None => {
            return None;
        },
    };
    let (source_application_name, p4) = match parse_str_at(s, p3) {
        Some(p) => p,
        None => {
            return None;
        },
    };
    let (recording_loopback_name, p5) = match parse_str_at(s, p4) {
        Some(p) => p,
        None => {
            return None;
        },
    };
    let (local_loopback_name, p6) = match parse_str_at(s, p5) {
        Some(p) => p,
        None => {
            return None;
        },
    };
    let (recording_dest_node_id, p7) = match parse_u32_at(s, p6) {
        Some(p) => p,
        None => {
            return None;
        },
    };
    let (recording_dest_media_name, p8) = match parse_str_at(s, p7) {
        Some(p) => p,
        None => {
            return None;
        },
    };
    let (recording_dest_application_name, p9) = match parse_str_at(s, p8) {
        Some(p) => p,
        None => {
            return None;
        },
    };
    let (original_output_node_name, p10) = match parse_str_at(s, p9) {
        Some(p) => p,
        None => {
            return None;
        },
    };
    let (original_links, p11) = match parse_links_at(s, p10) {
        Some(p) => p,
        None => {
            return None;
        },
    };
    let (loopback_to_recording_pid, p12) = match parse_u32_at(s, p11) {
        Some(p) => p,
        None => {
            return None;
        },
    };
    let (loopback_to_local_pid, p13) = match parse_u32_at(s, p12) {
        Some(p) => p,
        None => {
            return None;
        },
    };
    let (created_at, p14) = match parse_nat_at(s, p13) {
        Some(p) => p,
        None => {
            return None;
        },
    };
    if p14 != s.unicode_len() {
        return None;
    }
    Some(
        SplitState {
            name,
            source_node_id,
            source_node_name,
            source_application_name,
            recording_loopback_name,
            local_loopback_name,
            recording_dest_node_id,
            recording_dest_media_name,
            recording_dest_application_name,
            original_output_node_name,
            original_links,
            loopback_to_recording_pid,
            loopback_to_local_pid,
            created_at,
        },
    )
}

} // verus!
