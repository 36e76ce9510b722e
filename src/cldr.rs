use vstd::prelude::*;
use crate::error::{DataError, SourceError};
use crate::key::LocaleSelector;
use crate::locale::{
    all_alpha, is_language, is_lower, langid_lt, lemma_und_first, parse_language_identifier, parse_spec,
    is_sep, split_spec, LanguageIdentifier, ParserMode,
};
use crate::zeromap::{ascending, last_value, SortedKey, ZeroMap};

verus! {

/// The locale that a CLDR locale name stands for: `root` is the undetermined
/// locale, any other name is parsed as a language identifier.
pub open spec fn cldr_locale_spec(name: Seq<char>) -> Option<LanguageIdentifier> {
    if name == "root"@ {
        Some(LanguageIdentifier::und_spec())
    } else {
        match parse_spec(vstd::utf8::encode_utf8(name), ParserMode::LanguageIdentifier) {
            Ok(l) => Some(l),
            Err(_) => None,
        }
    }
}

/// A name of two lowercase ASCII letters, such as `de`, is a locale.
pub proof fn lemma_two_letter_locale(name: Seq<char>)
    requires
        name.len() == 2,
        'a' <= name[0] <= 'z',
        'a' <= name[1] <= 'z',
    ensures
        cldr_locale_spec(name) is Some,
{
    reveal_strlit("root");
    assert(name != "root"@);
    assert(vstd::utf8::is_ascii_chars(name));
    vstd::utf8::is_ascii_chars_encode_utf8(name);
    let b = vstd::utf8::encode_utf8(name);
    assert(b.len() == 2);
    assert(b[0] == name[0] as u8 && b[1] == name[1] as u8);
    let b0 = b.drop_last();
    let b00 = b0.drop_last();
    assert(b00.len() == 0);
    assert(split_spec(b00) == seq![Seq::<u8>::empty()]);
    assert(!is_sep(b0.last()) && !is_sep(b.last()));
    assert(split_spec(b0) =~= seq![seq![b[0]]]);
    assert(b.last() == b[1]);
    assert(split_spec(b) == split_spec(b0).update(0, split_spec(b0).last().push(b[1])));
    assert(split_spec(b0).last() =~= seq![b[0]]);
    assert(seq![b[0]].push(b[1]) =~= seq![b[0], b[1]]);
    assert(split_spec(b) =~= seq![seq![b[0], b[1]]]);
    assert(seq![b[0], b[1]] =~= b);
    assert(is_lower(b[0]) && is_lower(b[1]));
    assert(all_alpha(b));
    assert(is_language(b));
}

/// The locale of a CLDR locale name, or `InvalidLocale` with the name.
pub fn cldr_locale(name: &String) -> (r: Result<LanguageIdentifier, DataError>)
    ensures
        match cldr_locale_spec(name@) {
            Some(l) => r == Ok::<LanguageIdentifier, DataError>(l),
            None => r matches Err(DataError::ResourceError(SourceError::InvalidLocale(n)))
                && n@ == name@,
        },
{
    let root = String::from_str("root");
    if *name == root {
        return Ok(LanguageIdentifier::und());
    }
    match parse_language_identifier(name.as_str().as_bytes(), ParserMode::LanguageIdentifier) {
        Ok(l) => Ok(l),
        Err(_) => Err(DataError::ResourceError(SourceError::InvalidLocale(name.clone()))),
    }
}

/// Do all names of `raw` stand for a locale?
pub open spec fn all_locales_valid<P>(raw: Seq<(String, P)>) -> bool {
    forall|i: int| 0 <= i < raw.len() ==> (#[trigger] cldr_locale_spec(raw[i].0@)) is Some
}

/// The pairs of `raw` with each name replaced by its locale.
pub open spec fn with_locales<P>(raw: Seq<(String, P)>) -> Seq<(LanguageIdentifier, P)> {
    Seq::new(raw.len(), |i: int| (cldr_locale_spec(raw[i].0@).unwrap(), raw[i].1))
}

/// `t` holds, for each locale, the last value that `raw` gives a name of it.
pub open spec fn table_matches<P>(
    t: ZeroMap<LanguageIdentifier, P>,
    raw: Seq<(String, P)>,
) -> bool {
    t.wf() && forall|l: LanguageIdentifier| t.lookup(l) == last_value(with_locales(raw), l)
}

/// The table of the (CLDR locale name, value) pairs `raw`, in any order; where
/// a locale comes more than once, its last value is kept. Fails with
/// `InvalidLocale` where a name is no locale.
pub fn locale_table<P>(raw: Vec<(String, P)>) -> (r: Result<ZeroMap<LanguageIdentifier, P>, DataError>)
    ensures
        r is Ok <==> all_locales_valid(raw@),
        r matches Ok(t) ==> table_matches(t, raw@),
        r matches Err(e) ==> e matches DataError::ResourceError(SourceError::InvalidLocale(_)),
{
    let ghost all = raw@;
    let n = raw.len();
    let mut rest = raw;
    let mut pairs: Vec<(LanguageIdentifier, P)> = Vec::new();
    let mut i: usize = 0;
    while rest.len() > 0
        invariant
            i <= n,
            all.len() == n,
            all == raw@,
            rest@ == all.subrange(i as int, n as int),
            pairs@.len() == i,
            forall|k: int| 0 <= k < i ==> cldr_locale_spec(all[k].0@) is Some,
            forall|k: int| 0 <= k < i ==> pairs@[k] == with_locales(all)[k],
        decreases rest@.len(),
    {
        let (name, value) = rest.remove(0);
        proof {
            assert(all[i as int] == (name, value));
        }
        let l = match cldr_locale(&name) {
            Ok(l) => l,
            Err(e) => {
                proof {
                    assert(cldr_locale_spec(all[i as int].0@) is None);
                    assert(!all_locales_valid(all));
                }
                return Err(e);
            },
        };
        pairs.push((l, value));
        i = i + 1;
        proof {
            assert(rest@ == all.subrange(i as int, n as int));
        }
    }
    proof {
        assert(pairs@ == with_locales(all));
    }
    Ok(ZeroMap::from_pairs(pairs))
}

/// `v` names each locale of `t` once, in ascending order, with no variant.
pub open spec fn selectors_of<P>(v: Seq<LocaleSelector>, t: ZeroMap<LanguageIdentifier, P>) -> bool {
    &&& forall|i: int| 0 <= i < v.len() ==> (#[trigger] v[i]).variant is None
    &&& forall|i: int| 0 <= i < v.len() ==> t.lookup(#[trigger] v[i].langid) is Some
    &&& forall|l: LanguageIdentifier|
        t.lookup(l) is Some ==> exists|i: int| 0 <= i < v.len() && v[i].langid == l
    &&& ascending(Seq::new(v.len(), |i: int| v[i].langid))
}

/// The locales that a transform lists for a key come in strictly ascending
/// order, whatever order its source listed them in, and the root
/// (undetermined) locale, where it has data, comes first.
pub proof fn lemma_selectors_sorted_root_first<P>(v: Seq<LocaleSelector>, t: ZeroMap<LanguageIdentifier, P>)
    requires
        selectors_of(v, t),
    ensures
        forall|i: int, j: int| 0 <= i < j < v.len() ==> langid_lt(v[i].langid, v[j].langid),
        t.lookup(LanguageIdentifier::und_spec()) is Some ==> v.len() > 0 && v[0].langid
            == LanguageIdentifier::und_spec(),
{
    let ls = Seq::new(v.len(), |i: int| v[i].langid);
    assert forall|i: int, j: int| 0 <= i < j < v.len() implies langid_lt(v[i].langid, v[j].langid) by {
        assert(ls[i] == v[i].langid && ls[j] == v[j].langid);
        assert(ls[i].lt_spec(ls[j]));
    }
    let und = LanguageIdentifier::und_spec();
    if t.lookup(und) is Some {
        let k = choose|k: int| 0 <= k < v.len() && v[k].langid == und;
        if k > 0 {
            assert(langid_lt(v[0].langid, v[k].langid));
            lemma_und_first(v[0].langid);
        }
    }
}

/// Selectors for the locales of `t`, in order.
pub fn selectors_for<P>(t: &ZeroMap<LanguageIdentifier, P>) -> (r: Vec<LocaleSelector>)
    requires
        t.wf(),
    ensures
        selectors_of(r@, *t),
{
    let locales = t.keys();
    let mut out: Vec<LocaleSelector> = Vec::new();
    let mut i: usize = 0;
    while i < locales.len()
        invariant
            i <= locales@.len(),
            out@.len() == i,
            forall|k: int| 0 <= k < i ==> (#[trigger] out@[k]).variant is None && out@[k].langid
                == locales@[k],
        decreases locales@.len() - i,
    {
        out.push(LocaleSelector::of(locales[i]));
        i = i + 1;
    }
    proof {
        assert(Seq::new(out@.len(), |k: int| out@[k].langid) == locales@);
        assert forall|l: LanguageIdentifier| t.lookup(l) is Some implies exists|k: int|
            0 <= k < out@.len() && out@[k].langid == l by {
            let k = choose|k: int| 0 <= k < locales@.len() && locales@[k] == l;
            assert(out@[k].langid == l);
        }
        assert forall|k: int| 0 <= k < out@.len() implies t.lookup(#[trigger] out@[k].langid) is Some by {
            assert(out@[k].langid == locales@[k]);
        }
    }
    out
}

} // verus!
