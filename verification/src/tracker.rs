//! Tracker rewrite rules: an ordered list of regular-expression rules is
//! applied to announce URLs, left to right, each rule operating on the
//! previous rule's output. A rule whose rewrite comes out empty removes
//! the URL and halts the remaining rules for it.

use vstd::prelude::*;

verus! {

/// What `regex::Regex::new` returns for a pattern: whether it compiles.
pub uninterp spec fn regex_valid(pattern: Seq<char>) -> bool;

/// What `regex::Regex::replace` returns: the haystack with its first
/// match of the pattern rewritten through the template.
pub uninterp spec fn str_replaced(
    pattern: Seq<char>,
    haystack: Seq<char>,
    template: Seq<char>,
) -> Seq<char>;

/// What `regex::bytes::Regex::new` returns for a pattern: whether it
/// compiles.
pub uninterp spec fn bytes_regex_valid(pattern: Seq<char>) -> bool;

/// What `regex::bytes::Regex::replace` returns: the haystack with its
/// first match of the pattern rewritten through the template.
pub uninterp spec fn bytes_replaced(
    pattern: Seq<char>,
    haystack: Seq<u8>,
    template: Seq<u8>,
) -> Seq<u8>;

/// Relies on regex::Regex::new, which accepts or rejects a pattern
/// deterministically, and regex::Regex::replace, which rewrites the first
/// match deterministically in pattern, haystack and template.
#[verifier::external_body]
fn regex_replace_first(pattern: &str, haystack: &str, template: &str) -> (r: Option<String>)
    ensures
        r is Some <==> regex_valid(pattern@),
        r matches Some(s) ==> s@ == str_replaced(pattern@, haystack@, template@),
{
    match regex::Regex::new(pattern) {
        Ok(re) => Some(re.replace(haystack, template).into_owned()),
        Err(_) => None,
    }
}

/// Relies on regex::bytes::Regex::new and regex::bytes::Regex::replace,
/// the byte-haystack counterparts of the functions above.
#[verifier::external_body]
fn bytes_regex_replace_first(pattern: &str, haystack: &[u8], template: &[u8]) -> (r: Option<
    Vec<u8>,
>)
    ensures
        r is Some <==> bytes_regex_valid(pattern@),
        r matches Some(s) ==> s@ == bytes_replaced(pattern@, haystack@, template@),
{
    match regex::bytes::Regex::new(pattern) {
        Ok(re) => Some(re.replace(haystack, template).into_owned()),
        Err(_) => None,
    }
}

/// One tracker rewrite rule: replace the first match of `from` by the
/// template `to`.
pub enum TrackerRule {
    Replace { from: String, to: String },
}

impl TrackerRule {
    /// A rule is well formed when its pattern compiles, both as a
    /// character regex and as a byte regex.
    pub open spec fn wf(&self) -> bool {
        match self {
            TrackerRule::Replace { from, to } => regex_valid(from@) && bytes_regex_valid(from@),
        }
    }

    /// Build a replace rule, validating the pattern.
    pub fn replace(from: String, to: String) -> (r: Option<TrackerRule>)
        ensures
            r is Some <==> regex_valid(from@) && bytes_regex_valid(from@),
            r matches Some(rule) ==> rule.wf() && (rule matches TrackerRule::Replace {
                from: f,
                to: t,
            } && f@ == from@ && t@ == to@),
    {
        let str_ok = regex_replace_first(from.as_str(), "", "").is_some();
        let bytes_ok = bytes_regex_replace_first(from.as_str(), &[], &[]).is_some();
        if str_ok && bytes_ok {
            Some(TrackerRule::Replace { from, to })
        } else {
            None
        }
    }


    /// The rule's pattern compiles, decided by trying both regex forms.
    pub fn is_wf(&self) -> (r: bool)
        ensures
            r == self.wf(),
    {
        match self {
            TrackerRule::Replace { from, to } => {
                let str_ok = regex_replace_first(from.as_str(), "", "").is_some();
                let bytes_ok = bytes_regex_replace_first(from.as_str(), &[], &[]).is_some();
                str_ok && bytes_ok
            },
        }
    }

    /// Every rule kind currently matches every URL.
    pub fn matches(&self, _announce: &str) -> (r: bool)
        ensures
            r,
    {
        match self {
            TrackerRule::Replace { .. } => true,
        }
    }

    /// What one rule does to one URL: the rewritten URL, or `None` when
    /// the rewrite comes out empty, which removes the URL.
    pub open spec fn spec_apply(&self, url: Seq<char>) -> Option<Seq<char>> {
        match self {
            TrackerRule::Replace { from, to } => {
                let s = str_replaced(from@, url, to@);
                if s.len() == 0 {
                    None
                } else {
                    Some(s)
                }
            },
        }
    }

    /// `spec_apply` on raw announce bytes, as metainfo holds them.
    pub open spec fn spec_apply_bytes(&self, url: Seq<u8>) -> Option<Seq<u8>> {
        match self {
            TrackerRule::Replace { from, to } => {
                let s = bytes_replaced(from@, url, vstd::utf8::encode_utf8(to@));
                if s.len() == 0 {
                    None
                } else {
                    Some(s)
                }
            },
        }
    }

    pub fn apply(&self, announce: &str) -> (r: Option<String>)
        requires
            self.wf(),
        ensures
            r is Some <==> self.spec_apply(announce@) is Some,
            r matches Some(s) ==> self.spec_apply(announce@) matches Some(v) && s@ == v,
    {
        match self {
            TrackerRule::Replace { from, to } => {
                let replaced = regex_replace_first(from.as_str(), announce, to.as_str());
                match replaced {
                    Some(s) => {
                        if s.as_str().unicode_len() == 0 {
                            None
                        } else {
                            Some(s)
                        }
                    },
                    None => None,
                }
            },
        }
    }

    pub fn apply_bytes(&self, announce: &[u8]) -> (r: Option<Vec<u8>>)
        requires
            self.wf(),
        ensures
            r is Some <==> self.spec_apply_bytes(announce@) is Some,
            r matches Some(s) ==> self.spec_apply_bytes(announce@) matches Some(v) && s@ == v,
    {
        match self {
            TrackerRule::Replace { from, to } => {
                let replaced = bytes_regex_replace_first(
                    from.as_str(),
                    announce,
                    to.as_str().as_bytes(),
                );
                match replaced {
                    Some(s) => {
                        if s.len() == 0 {
                            None
                        } else {
                            Some(s)
                        }
                    },
                    None => None,
                }
            },
        }
    }
}

/// All rules of a list are well formed.
pub open spec fn rules_wf(rules: Seq<TrackerRule>) -> bool {
    forall|i: int| 0 <= i < rules.len() ==> (#[trigger] rules[i]).wf()
}


/// Every pattern of the rule list compiles, decided rule by rule.
pub fn rules_valid(rules: &Vec<TrackerRule>) -> (r: bool)
    ensures
        r == rules_wf(rules@),
{
    let n = rules.len();
    let mut i: usize = 0;
    while i < n
        invariant
            i <= n,
            n == rules@.len(),
            forall|j: int| 0 <= j < i ==> (#[trigger] rules@[j]).wf(),
        decreases n - i,
    {
        if !rules[i].is_wf() {
            return false;
        }
        i += 1;
    }
    true
}

/// What the ordered rule list does to one URL: rules compose left to
/// right, and a removal halts the remaining rules.
pub open spec fn spec_apply_one(rules: Seq<TrackerRule>, url: Seq<char>) -> Option<Seq<char>>
    decreases rules.len(),
{
    if rules.len() == 0 {
        Some(url)
    } else {
        match rules[0].spec_apply(url) {
            None => None,
            Some(u) => spec_apply_one(rules.drop_first(), u),
        }
    }
}

/// `spec_apply_one` on raw announce bytes.
pub open spec fn spec_apply_one_bytes(rules: Seq<TrackerRule>, url: Seq<u8>) -> Option<Seq<u8>>
    decreases rules.len(),
{
    if rules.len() == 0 {
        Some(url)
    } else {
        match rules[0].spec_apply_bytes(url) {
            None => None,
            Some(u) => spec_apply_one_bytes(rules.drop_first(), u),
        }
    }
}

/// The character sequences of a list of strings.
pub open spec fn seq_views(v: Seq<String>) -> Seq<Seq<char>> {
    v.map_values(|s: String| s@)
}

/// What the rule list does to a list of URLs: each URL runs through
/// `spec_apply_one`; removed URLs drop out; survivors keep their order.
pub open spec fn spec_apply_list(rules: Seq<TrackerRule>, urls: Seq<Seq<char>>) -> Seq<Seq<char>>
    decreases urls.len(),
{
    if urls.len() == 0 {
        Seq::empty()
    } else {
        let rest = spec_apply_list(rules, urls.drop_last());
        match spec_apply_one(rules, urls.last()) {
            None => rest,
            Some(u) => rest.push(u),
        }
    }
}

/// `spec_apply_list` on lists of raw announce bytes.
pub open spec fn spec_apply_list_bytes(rules: Seq<TrackerRule>, urls: Seq<Seq<u8>>) -> Seq<Seq<u8>>
    decreases urls.len(),
{
    if urls.len() == 0 {
        Seq::empty()
    } else {
        let rest = spec_apply_list_bytes(rules, urls.drop_last());
        match spec_apply_one_bytes(rules, urls.last()) {
            None => rest,
            Some(u) => rest.push(u),
        }
    }
}

/// Run the ordered rule list over one URL.
pub fn apply_one(url: &str, rules: &Vec<TrackerRule>) -> (r: Option<String>)
    requires
        rules_wf(rules@),
    ensures
        r is Some <==> spec_apply_one(rules@, url@) is Some,
        r matches Some(s) ==> spec_apply_one(rules@, url@) matches Some(v) && s@ == v,
{
    let mut current = url.to_owned();
    let n = rules.len();
    let mut i: usize = 0;
    proof {
        assert(rules@.skip(0) =~= rules@);
    }
    while i < n
        invariant
            i <= n,
            n == rules@.len(),
            rules_wf(rules@),
            spec_apply_one(rules@.skip(i as int), current@) == spec_apply_one(rules@, url@),
        decreases n - i,
    {
        proof {
            assert(rules@.skip(i as int)[0] == rules@[i as int]);
            assert(rules@.skip(i as int).drop_first() =~= rules@.skip(i as int + 1));
        }
        match rules[i].apply(current.as_str()) {
            Some(next) => {
                current = next;
            },
            None => {
                return None;
            },
        }
        i += 1;
    }
    proof {
        assert(rules@.skip(n as int) =~= Seq::<TrackerRule>::empty());
    }
    Some(current)
}

/// Run the ordered rule list over one URL given as raw bytes.
pub fn apply_one_bytes(url: &[u8], rules: &Vec<TrackerRule>) -> (r: Option<Vec<u8>>)
    requires
        rules_wf(rules@),
    ensures
        r is Some <==> spec_apply_one_bytes(rules@, url@) is Some,
        r matches Some(s) ==> spec_apply_one_bytes(rules@, url@) matches Some(v) && s@ == v,
{
    let mut current = vstd::slice::slice_to_vec(url);
    let n = rules.len();
    let mut i: usize = 0;
    proof {
        assert(rules@.skip(0) =~= rules@);
    }
    while i < n
        invariant
            i <= n,
            n == rules@.len(),
            rules_wf(rules@),
            spec_apply_one_bytes(rules@.skip(i as int), current@) == spec_apply_one_bytes(
                rules@,
                url@,
            ),
        decreases n - i,
    {
        proof {
            assert(rules@.skip(i as int)[0] == rules@[i as int]);
            assert(rules@.skip(i as int).drop_first() =~= rules@.skip(i as int + 1));
        }
        match rules[i].apply_bytes(current.as_slice()) {
            Some(next) => {
                current = next;
            },
            None => {
                return None;
            },
        }
        i += 1;
    }
    proof {
        assert(rules@.skip(n as int) =~= Seq::<TrackerRule>::empty());
    }
    Some(current)
}

/// Run the rule list over each URL of a list, dropping removed URLs and
/// keeping the survivors in order.
pub fn apply_list(urls: &Vec<String>, rules: &Vec<TrackerRule>) -> (r: Vec<String>)
    requires
        rules_wf(rules@),
    ensures
        seq_views(r@) == spec_apply_list(rules@, seq_views(urls@)),
{
    let mut out: Vec<String> = Vec::new();
    let n = urls.len();
    let mut i: usize = 0;
    while i < n
        invariant
            i <= n,
            n == urls@.len(),
            rules_wf(rules@),
            seq_views(out@) == spec_apply_list(rules@, seq_views(urls@.subrange(0, i as int))),
        decreases n - i,
    {
        proof {
            assert(seq_views(urls@.subrange(0, i as int + 1)).drop_last() =~= seq_views(
                urls@.subrange(0, i as int),
            ));
            assert(seq_views(urls@.subrange(0, i as int + 1)).last() == urls@[i as int]@);
        }
        match apply_one(urls[i].as_str(), rules) {
            Some(u) => {
                out.push(u);
                proof {
                    assert(seq_views(out@) =~= seq_views(out@.drop_last()).push(out@.last()@));
                }
            },
            None => {},
        }
        i += 1;
    }
    proof {
        assert(urls@.subrange(0, n as int) =~= urls@);
    }
    out
}

/// `apply_list` on lists of raw announce bytes.
pub fn apply_list_bytes(urls: &Vec<Vec<u8>>, rules: &Vec<TrackerRule>) -> (r: Vec<Vec<u8>>)
    requires
        rules_wf(rules@),
    ensures
        r@.map_values(|u: Vec<u8>| u@) == spec_apply_list_bytes(
            rules@,
            urls@.map_values(|u: Vec<u8>| u@),
        ),
{
    let mut out: Vec<Vec<u8>> = Vec::new();
    let n = urls.len();
    let mut i: usize = 0;
    while i < n
        invariant
            i <= n,
            n == urls@.len(),
            rules_wf(rules@),
            out@.map_values(|u: Vec<u8>| u@) == spec_apply_list_bytes(
                rules@,
                urls@.subrange(0, i as int).map_values(|u: Vec<u8>| u@),
            ),
        decreases n - i,
    {
        proof {
            assert(urls@.subrange(0, i as int + 1).map_values(|u: Vec<u8>| u@).drop_last()
                =~= urls@.subrange(0, i as int).map_values(|u: Vec<u8>| u@));
            assert(urls@.subrange(0, i as int + 1).map_values(|u: Vec<u8>| u@).last()
                == urls@[i as int]@);
        }
        match apply_one_bytes(urls[i].as_slice(), rules) {
            Some(u) => {
                out.push(u);
                proof {
                    assert(out@.map_values(|u: Vec<u8>| u@) =~= out@.drop_last().map_values(
                        |u: Vec<u8>| u@,
                    ).push(out@.last()@));
                }
            },
            None => {},
        }
        i += 1;
    }
    proof {
        assert(urls@.subrange(0, n as int) =~= urls@);
    }
    out
}

/// Once a rule of the list removes the URL, the whole list removes it:
/// rules after the removing one are never reached for that URL.
pub proof fn lemma_removal_halts(rules: Seq<TrackerRule>, i: int, url: Seq<char>)
    requires
        0 <= i < rules.len(),
        spec_apply_one(rules.subrange(0, i), url) matches Some(u) && rules[i].spec_apply(u)
            is None,
    ensures
        spec_apply_one(rules, url) is None,
    decreases i,
{
    if i == 0 {
        assert(rules.subrange(0, 0) =~= Seq::<TrackerRule>::empty());
        assert(spec_apply_one(rules.subrange(0, 0), url) == Some(url));
    } else {
        let prefix = rules.subrange(0, i);
        match prefix[0].spec_apply(url) {
            None => {
                assert(rules[0] == prefix[0]);
            },
            Some(u1) => {
                assert(rules[0] == prefix[0]);
                assert(prefix.drop_first() =~= rules.drop_first().subrange(0, i - 1));
                assert(rules.drop_first()[i - 1] == rules[i]);
                lemma_removal_halts(rules.drop_first(), i - 1, u1);
            },
        }
    }
}

} // verus!
