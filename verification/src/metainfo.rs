//! Torrent metainfo on top of the bencode codec: the top-level
//! dictionary, with the `announce` and `announce-list` fields rewritten
//! through the tracker rules and every other key preserved verbatim.

use vstd::prelude::*;

use crate::codec::{
    bval_pairs, bvals, decode, encode, lemma_bval_pairs_index, lemma_bval_pairs_push,
    lemma_bvals_index, lemma_bvals_push, lemma_decode_encode, spec_decoded, spec_decodes,
    spec_encode, BValue, Bencode, DecodeError,
};
use crate::tracker::{rules_wf, spec_apply_list_bytes, spec_apply_one_bytes, TrackerRule};

verus! {

/// The key of the single announce URL.
pub open spec fn key_announce() -> Seq<u8> {
    seq![97u8, 110u8, 110u8, 111u8, 117u8, 110u8, 99u8, 101u8]
}

/// The key of the tiered announce list.
pub open spec fn key_announce_list() -> Seq<u8> {
    seq![
        97u8, 110u8, 110u8, 111u8, 117u8, 110u8, 99u8, 101u8, 45u8, 108u8, 105u8, 115u8, 116u8,
    ]
}

/// A decoded torrent: the top-level bencode dictionary.
pub struct Metainfo {
    pub dict: Vec<(Vec<u8>, Bencode)>,
}

impl Metainfo {
    /// The mathematical pairs of the dictionary.
    pub open spec fn pairs(&self) -> Seq<(Seq<u8>, BValue)> {
        bval_pairs(self.dict@)
    }
}

/// Decode a bencoded torrent; the document must be one canonical
/// dictionary.
pub fn decode_metainfo(bytes: &Vec<u8>) -> (r: Result<Metainfo, DecodeError>)
    ensures
        r matches Ok(m) ==> spec_decodes(bytes@) && spec_decoded(bytes@) == BValue::Dict(m.pairs()),
        r is Err ==> !spec_decodes(bytes@) || !(spec_decoded(bytes@) is Dict),
{
    let v = decode(bytes)?;
    match v {
        Bencode::Dict(dict) => Ok(Metainfo { dict }),
        _ => Err(DecodeError::Shape),
    }
}

/// Encode a torrent back to its canonical byte form.
pub fn encode_metainfo(m: Metainfo) -> (r: Vec<u8>)
    ensures
        r@ == spec_encode(BValue::Dict(m.pairs())),
{
    let v = Bencode::Dict(m.dict);
    let out = encode(&v);
    out
}

/// A value is a list of URL byte strings.
pub open spec fn is_url_list(t: BValue) -> bool {
    t matches BValue::List(urls) && (forall|i: int|
        0 <= i < urls.len() ==> (#[trigger] urls[i]) is Bytes)
}

/// The URL bytes of a list of URL byte strings.
pub open spec fn urls_of(t: BValue) -> Seq<Seq<u8>>
    recommends
        is_url_list(t),
{
    t->List_0.map_values(|x: BValue| x->Bytes_0)
}

/// A list of URL byte strings as a bencode value.
pub open spec fn bytes_list(us: Seq<Seq<u8>>) -> BValue {
    BValue::List(us.map_values(|u: Seq<u8>| BValue::Bytes(u)))
}

/// What the tracker rules do to one dictionary pair: the announce value,
/// a byte string, runs through the rules and is removed when they remove
/// it; each tier of the announce list, a list of byte strings, runs
/// through the rules URL by URL; every other pair stays as it is. `None`
/// means the field does not have its required shape.
pub open spec fn spec_rewrite_pair(p: (Seq<u8>, BValue), rules: Seq<TrackerRule>) -> Option<
    Option<(Seq<u8>, BValue)>,
> {
    if p.0 == key_announce() {
        match p.1 {
            BValue::Bytes(b) => match spec_apply_one_bytes(rules, b) {
                None => Some(None),
                Some(nb) => Some(Some((p.0, BValue::Bytes(nb)))),
            },
            _ => None,
        }
    } else if p.0 == key_announce_list() {
        match p.1 {
            BValue::List(tiers) => if forall|i: int|
                0 <= i < tiers.len() ==> is_url_list(#[trigger] tiers[i]) {
                Some(
                    Some(
                        (
                            p.0,
                            BValue::List(
                                tiers.map_values(
                                    |t: BValue| bytes_list(spec_apply_list_bytes(rules, urls_of(t))),
                                ),
                            ),
                        ),
                    ),
                )
            } else {
                None
            },
            _ => None,
        }
    } else {
        Some(Some(p))
    }
}

/// What the tracker rules do to the whole dictionary: each pair in
/// order, dropping a removed announce pair.
pub open spec fn spec_rewrite_dict(
    pairs: Seq<(Seq<u8>, BValue)>,
    rules: Seq<TrackerRule>,
) -> Option<Seq<(Seq<u8>, BValue)>>
    decreases pairs.len(),
{
    if pairs.len() == 0 {
        Some(Seq::empty())
    } else {
        match spec_rewrite_dict(pairs.drop_last(), rules) {
            None => None,
            Some(r) => match spec_rewrite_pair(pairs.last(), rules) {
                None => None,
                Some(None) => Some(r),
                Some(Some(p)) => Some(r.push(p)),
            },
        }
    }
}

/// The key is `announce`.
fn is_key_announce(k: &Vec<u8>) -> (r: bool)
    ensures
        r == (k@ == key_announce()),
{
    if k.len() != 8 {
        return false;
    }
    let r = k[0] == 97 && k[1] == 110 && k[2] == 110 && k[3] == 111 && k[4] == 117 && k[5] == 110
        && k[6] == 99 && k[7] == 101;
    proof {
        if r {
            assert(k@ =~= key_announce());
        } else {
            assert(k@ == key_announce() ==> k@[0] == 97 && k@[1] == 110 && k@[2] == 110 && k@[3]
                == 111 && k@[4] == 117 && k@[5] == 110 && k@[6] == 99 && k@[7] == 101);
        }
    }
    r
}

/// The key is `announce-list`.
fn is_key_announce_list(k: &Vec<u8>) -> (r: bool)
    ensures
        r == (k@ == key_announce_list()),
{
    if k.len() != 13 {
        return false;
    }
    let r = k[0] == 97 && k[1] == 110 && k[2] == 110 && k[3] == 111 && k[4] == 117 && k[5] == 110
        && k[6] == 99 && k[7] == 101 && k[8] == 45 && k[9] == 108 && k[10] == 105 && k[11] == 115
        && k[12] == 116;
    proof {
        if r {
            assert(k@ =~= key_announce_list());
        } else {
            assert(k@ == key_announce_list() ==> k@[0] == 97 && k@[1] == 110 && k@[2] == 110
                && k@[3] == 111 && k@[4] == 117 && k@[5] == 110 && k@[6] == 99 && k@[7] == 101
                && k@[8] == 45 && k@[9] == 108 && k@[10] == 105 && k@[11] == 115 && k@[12] == 116);
        }
    }
    r
}

/// Rewrite one tier of the announce list: each URL byte string runs
/// through the rules; removed URLs drop out.
#[verifier::loop_isolation(false)]
fn rewrite_tier(tier: Bencode, rules: &Vec<TrackerRule>) -> (r: Result<Bencode, DecodeError>)
    requires
        rules_wf(rules@),
    ensures
        match r {
            Ok(t2) => is_url_list(tier.bval()) && t2.bval() == bytes_list(
                spec_apply_list_bytes(rules@, urls_of(tier.bval())),
            ),
            Err(_) => !is_url_list(tier.bval()),
        },
{
    match tier {
        Bencode::List(urls) => {
            let ghost orig = urls@;
            let ghost mut us: Seq<Seq<u8>> = Seq::empty();
            let mut out: Vec<Bencode> = Vec::new();
            let mut src = urls;
            proof {
                assert(tier.bval() == BValue::List(bvals(orig)));
                assert(orig.subrange(0, orig.len() as int) =~= orig);
                lemma_bvals_index(out@);
                assert(bvals(out@) =~= spec_apply_list_bytes(rules@, us).map_values(
                    |u: Seq<u8>| BValue::Bytes(u),
                ));
            }
            while src.len() > 0
                invariant
                    rules_wf(rules@),
                    src@.len() <= orig.len(),
                    src@ =~= orig.subrange(orig.len() - src@.len(), orig.len() as int),
                    us.len() == orig.len() - src@.len(),
                    forall|i: int|
                        0 <= i < us.len() ==> (#[trigger] orig[i]).bval() == BValue::Bytes(us[i]),
                    bvals(out@) == spec_apply_list_bytes(rules@, us).map_values(
                        |u: Seq<u8>| BValue::Bytes(u),
                    ),
                decreases src@.len(),
            {
                let ghost k = orig.len() - src@.len();
                let u = src.remove(0);
                proof {
                    assert(src@ =~= orig.subrange(k + 1, orig.len() as int));
                    assert(u == orig[k]);
                }
                match u {
                    Bencode::Bytes(b) => {
                        proof {
                            assert(orig[k].bval() == BValue::Bytes(b@));
                            assert(us.push(b@).drop_last() =~= us);
                            assert(us.push(b@).last() == b@);
                        }
                        match crate::tracker::apply_one_bytes(b.as_slice(), rules) {
                            Some(nb) => {
                                proof {
                                    assert(spec_apply_list_bytes(rules@, us.push(b@))
                                        == spec_apply_list_bytes(rules@, us).push(nb@));
                                    lemma_bvals_push(out@, Bencode::Bytes(nb));
                                }
                                out.push(Bencode::Bytes(nb));
                                proof {
                                    us = us.push(b@);
                                    assert(bvals(out@) =~= spec_apply_list_bytes(rules@, us)
                                        .map_values(|u: Seq<u8>| BValue::Bytes(u)));
                                }
                            },
                            None => {
                                proof {
                                    assert(spec_apply_list_bytes(rules@, us.push(b@))
                                        == spec_apply_list_bytes(rules@, us));
                                    us = us.push(b@);
                                }
                            },
                        }
                    },
                    _ => {
                        proof {
                            lemma_bvals_index(orig);
                            match orig[k] {
                                Bencode::Int(_) => {},
                                Bencode::Bytes(_) => {
                                    assert(false);
                                },
                                Bencode::List(_) => {},
                                Bencode::Dict(_) => {},
                            }
                            assert(orig[k].bval() !is Bytes);
                            assert(bvals(orig)[k] == orig[k].bval());
                            assert(!is_url_list(BValue::List(bvals(orig))));
                        }
                        return Err(DecodeError::Shape);
                    },
                }
            }
            proof {
                lemma_bvals_index(orig);
                assert(is_url_list(BValue::List(bvals(orig))));
                assert(urls_of(BValue::List(bvals(orig))) =~= us);
            }
            Ok(Bencode::List(out))
        },
        _ => Err(DecodeError::Shape),
    }
}

/// Rewrite the announce fields of a torrent through the tracker rules.
/// Every pair other than `announce` and `announce-list` is preserved
/// verbatim, in order; an announce URL the rules remove drops its pair.
#[verifier::loop_isolation(false)]
pub fn rewrite_trackers(m: Metainfo, rules: &Vec<TrackerRule>) -> (r: Result<
    Metainfo,
    DecodeError,
>)
    requires
        rules_wf(rules@),
    ensures
        match r {
            Ok(m2) => spec_rewrite_dict(bval_pairs(m.dict@), rules@) == Some(bval_pairs(m2.dict@)),
            Err(_) => spec_rewrite_dict(bval_pairs(m.dict@), rules@) is None,
        },
{
    let ghost orig = m.dict@;
    let mut out: Vec<(Vec<u8>, Bencode)> = Vec::new();
    let mut src = m.dict;
    proof {
        assert(orig.subrange(0, orig.len() as int) =~= orig);
        assert(bval_pairs(orig.subrange(0, 0)) =~= Seq::<(Seq<u8>, BValue)>::empty());
        assert(bval_pairs(out@) =~= Seq::<(Seq<u8>, BValue)>::empty());
    }
    while src.len() > 0
        invariant
            rules_wf(rules@),
            src@.len() <= orig.len(),
            src@ =~= orig.subrange(orig.len() - src@.len(), orig.len() as int),
            spec_rewrite_dict(bval_pairs(orig.subrange(0, orig.len() - src@.len())), rules@)
                == Some(bval_pairs(out@)),
        decreases src@.len(),
    {
        let ghost k = orig.len() - src@.len();
        let ghost prefix = bval_pairs(orig.subrange(0, k));
        let ghost prefix2 = bval_pairs(orig.subrange(0, k + 1));
        proof {
            lemma_bval_pairs_index(orig.subrange(0, k));
            lemma_bval_pairs_index(orig.subrange(0, k + 1));
            assert(prefix2.drop_last() =~= prefix);
            assert(orig.subrange(0, k + 1)[k] == orig[k]);
            assert(prefix2.last() == (orig[k].0@, orig[k].1.bval()));
        }
        let (key, val) = src.remove(0);
        proof {
            assert(src@ =~= orig.subrange(k + 1, orig.len() as int));
            assert((key, val) == orig[k]);
        }
        if is_key_announce(&key) {
            match val {
                Bencode::Bytes(b) => {
                    proof {
                        assert(orig[k].1.bval() == BValue::Bytes(b@));
                    }
                    match crate::tracker::apply_one_bytes(b.as_slice(), rules) {
                        Some(nb) => {
                            proof {
                                assert(spec_rewrite_pair(prefix2.last(), rules@) == Some(
                                    Some((key_announce(), BValue::Bytes(nb@))),
                                ));
                                lemma_bval_pairs_push(out@, (key, Bencode::Bytes(nb)));
                            }
                            out.push((key, Bencode::Bytes(nb)));
                        },
                        None => {
                            proof {
                                assert(spec_rewrite_pair(prefix2.last(), rules@) == Some(
                                    None::<(Seq<u8>, BValue)>,
                                ));
                            }
                        },
                    }
                },
                _ => {
                    proof {
                        match orig[k].1 {
                            Bencode::Int(_) => {},
                            Bencode::Bytes(_) => {
                                assert(false);
                            },
                            Bencode::List(_) => {},
                            Bencode::Dict(_) => {},
                        }
                        assert(spec_rewrite_pair(prefix2.last(), rules@) is None);
                        lemma_bval_pairs_index(orig);
                        assert(bval_pairs(orig)[k] == prefix2.last());
                        lemma_rewrite_dict_none(orig, rules@, k);
                    }
                    return Err(DecodeError::Shape);
                },
            }
        } else if is_key_announce_list(&key) {
            match val {
                Bencode::List(tiers) => {
                    proof {
                        assert(orig[k].1.bval() == BValue::List(bvals(tiers@)));
                    }
                    let ghost torig = tiers@;
                    let mut newtiers: Vec<Bencode> = Vec::new();
                    let mut tsrc = tiers;
                    while tsrc.len() > 0
                        invariant
                            rules_wf(rules@),
                            tsrc@.len() <= torig.len(),
                            tsrc@ =~= torig.subrange(torig.len() - tsrc@.len(), torig.len() as int),
                            newtiers@.len() == torig.len() - tsrc@.len(),
                            forall|i: int|
                                0 <= i < newtiers@.len() ==> is_url_list(
                                    (#[trigger] torig[i]).bval(),
                                ) && newtiers@[i].bval() == bytes_list(
                                    spec_apply_list_bytes(rules@, urls_of(torig[i].bval())),
                                ),
                        decreases tsrc@.len(),
                    {
                        let ghost tk = torig.len() - tsrc@.len();
                        let t = tsrc.remove(0);
                        proof {
                            assert(tsrc@ =~= torig.subrange(tk + 1, torig.len() as int));
                            assert(t == torig[tk]);
                        }
                        match rewrite_tier(t, rules) {
                            Ok(t2) => {
                                newtiers.push(t2);
                            },
                            Err(e) => {
                                proof {
                                    lemma_bvals_index(torig);
                                    assert(bvals(torig)[tk] == torig[tk].bval());
                                    assert(!is_url_list(bvals(torig)[tk]));
                                    assert(spec_rewrite_pair(prefix2.last(), rules@) is None);
                                    lemma_bval_pairs_index(orig);
                                    assert(bval_pairs(orig)[k] == prefix2.last());
                                    lemma_rewrite_dict_none(orig, rules@, k);
                                }
                                return Err(e);
                            },
                        }
                    }
                    proof {
                        lemma_bvals_index(torig);
                        lemma_bvals_index(newtiers@);
                        assert(forall|i: int|
                            0 <= i < bvals(torig).len() ==> is_url_list(
                                #[trigger] bvals(torig)[i],
                            ));
                        assert(bvals(newtiers@) =~= bvals(torig).map_values(
                            |t: BValue| bytes_list(spec_apply_list_bytes(rules@, urls_of(t))),
                        ));
                        assert(spec_rewrite_pair(prefix2.last(), rules@) == Some(
                            Some(
                                (
                                    key_announce_list(),
                                    BValue::List(
                                        bvals(torig).map_values(
                                            |t: BValue| bytes_list(
                                                spec_apply_list_bytes(rules@, urls_of(t)),
                                            ),
                                        ),
                                    ),
                                ),
                            ),
                        ));
                        lemma_bval_pairs_push(out@, (key, Bencode::List(newtiers)));
                    }
                    out.push((key, Bencode::List(newtiers)));
                },
                _ => {
                    proof {
                        match orig[k].1 {
                            Bencode::Int(_) => {},
                            Bencode::Bytes(_) => {},
                            Bencode::List(_) => {
                                assert(false);
                            },
                            Bencode::Dict(_) => {},
                        }
                        assert(spec_rewrite_pair(prefix2.last(), rules@) is None);
                        lemma_bval_pairs_index(orig);
                        assert(bval_pairs(orig)[k] == prefix2.last());
                        lemma_rewrite_dict_none(orig, rules@, k);
                    }
                    return Err(DecodeError::Shape);
                },
            }
        } else {
            proof {
                assert(spec_rewrite_pair(prefix2.last(), rules@) == Some(Some(prefix2.last())));
                lemma_bval_pairs_push(out@, (key, val));
            }
            out.push((key, val));
        }
    }
    proof {
        assert(orig.subrange(0, orig.len() as int) =~= orig);
    }
    Ok(Metainfo { dict: out })
}

/// A pair whose rewrite is a shape error makes the whole dictionary's
/// rewrite a shape error.
proof fn lemma_rewrite_dict_none(
    pairs: Seq<(Vec<u8>, Bencode)>,
    rules: Seq<TrackerRule>,
    k: int,
)
    requires
        0 <= k < pairs.len(),
        spec_rewrite_pair(bval_pairs(pairs)[k], rules) is None,
    ensures
        spec_rewrite_dict(bval_pairs(pairs), rules) is None,
{
    lemma_bval_pairs_index(pairs);
    lemma_rewrite_dict_none_seq(bval_pairs(pairs), rules, k);
}

/// The same, over the mathematical pairs.
proof fn lemma_rewrite_dict_none_seq(
    pairs: Seq<(Seq<u8>, BValue)>,
    rules: Seq<TrackerRule>,
    k: int,
)
    requires
        0 <= k < pairs.len(),
        spec_rewrite_pair(pairs[k], rules) is None,
    ensures
        spec_rewrite_dict(pairs, rules) is None,
    decreases pairs.len(),
{
    if k == pairs.len() - 1 {
        assert(pairs.last() == pairs[k]);
    } else {
        assert(pairs.drop_last()[k] == pairs[k]);
        lemma_rewrite_dict_none_seq(pairs.drop_last(), rules, k);
    }
}


/// A rule set that maps every pair to itself leaves the dictionary
/// unchanged.
pub proof fn lemma_rewrite_dict_identity(pairs: Seq<(Seq<u8>, BValue)>, rules: Seq<TrackerRule>)
    requires
        forall|i: int|
            0 <= i < pairs.len() ==> spec_rewrite_pair(#[trigger] pairs[i], rules) == Some(
                Some(pairs[i]),
            ),
    ensures
        spec_rewrite_dict(pairs, rules) == Some(pairs),
    decreases pairs.len(),
{
    if pairs.len() > 0 {
        assert(forall|i: int|
            0 <= i < pairs.drop_last().len() ==> #[trigger] pairs.drop_last()[i] == pairs[i]);
        lemma_rewrite_dict_identity(pairs.drop_last(), rules);
        assert(pairs.last() == pairs[pairs.len() - 1]);
        assert(pairs.drop_last().push(pairs.last()) =~= pairs);
    }
}

/// The round-trip law: a canonical bencoded torrent whose announce
/// fields the rule set maps to themselves is left unchanged by the
/// tracker rewrite, and re-encoding the decoded dictionary reproduces
/// the input byte for byte.
pub proof fn lemma_metainfo_round_trip(s: Seq<u8>, rules: Seq<TrackerRule>)
    requires
        spec_decodes(s),
        spec_decoded(s) matches BValue::Dict(pairs) && (forall|i: int|
            0 <= i < pairs.len() ==> spec_rewrite_pair(#[trigger] pairs[i], rules) == Some(
                Some(pairs[i]),
            )),
    ensures
        spec_rewrite_dict(spec_decoded(s)->Dict_0, rules) == Some(spec_decoded(s)->Dict_0),
        spec_encode(BValue::Dict(spec_decoded(s)->Dict_0)) == s,
{
    lemma_rewrite_dict_identity(spec_decoded(s)->Dict_0, rules);
    lemma_decode_encode(s);
    assert(BValue::Dict(spec_decoded(s)->Dict_0) == spec_decoded(s));
}

} // verus!
