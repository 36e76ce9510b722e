use vstd::prelude::*;
use crate::zeromap::SortedKey;

verus! {

/// A language identifier whose subtags are held as packed ASCII.
///
/// Each subtag is stored big-endian in an integer and padded with zero bytes on
/// the right, so that comparing the integers compares the subtags
/// alphabetically.  A zero means "absent"; for the language a zero is the
/// undetermined language `und`, which therefore orders before every other.
#[derive(PartialEq, Eq, Structural, Clone, Copy, Debug)]
pub struct LanguageIdentifier {
    pub language: u64,
    pub script: u32,
    pub region: u32,
    pub variant: u64,
}

/// Strict lexicographic order on identifiers: language, then script, region, variant.
pub open spec fn langid_lt(a: LanguageIdentifier, b: LanguageIdentifier) -> bool {
    a.language < b.language
        || (a.language == b.language && a.script < b.script)
        || (a.language == b.language && a.script == b.script && a.region < b.region)
        || (a.language == b.language && a.script == b.script && a.region == b.region
            && a.variant < b.variant)
}

/// `a` orders before `b` or equals it.
pub open spec fn langid_le(a: LanguageIdentifier, b: LanguageIdentifier) -> bool {
    langid_lt(a, b) || a == b
}

impl LanguageIdentifier {
    /// The undetermined (root) locale.
    pub fn und() -> (r: LanguageIdentifier)
        ensures
            r == Self::und_spec(),
    {
        LanguageIdentifier { language: 0, script: 0, region: 0, variant: 0 }
    }

    pub open spec fn und_spec() -> LanguageIdentifier {
        LanguageIdentifier { language: 0, script: 0, region: 0, variant: 0 }
    }

    /// Compares two identifiers by the order `langid_lt`.
    pub fn compare_to(&self, other: &LanguageIdentifier) -> (r: core::cmp::Ordering)
        ensures
            (r == core::cmp::Ordering::Less) == langid_lt(*self, *other),
            (r == core::cmp::Ordering::Equal) == (*self == *other),
            (r == core::cmp::Ordering::Greater) == langid_lt(*other, *self),
    {
        if self.language != other.language {
            if self.language < other.language {
                core::cmp::Ordering::Less
            } else {
                core::cmp::Ordering::Greater
            }
        } else if self.script != other.script {
            if self.script < other.script {
                core::cmp::Ordering::Less
            } else {
                core::cmp::Ordering::Greater
            }
        } else if self.region != other.region {
            if self.region < other.region {
                core::cmp::Ordering::Less
            } else {
                core::cmp::Ordering::Greater
            }
        } else if self.variant < other.variant {
            core::cmp::Ordering::Less
        } else if self.variant > other.variant {
            core::cmp::Ordering::Greater
        } else {
            core::cmp::Ordering::Equal
        }
    }
}

/// How much of the input a parse takes as the language identifier.
#[derive(PartialEq, Eq, Structural, Clone, Copy, Debug)]
pub enum ParserMode {
    /// The whole input is one language identifier.
    LanguageIdentifier,
    /// A language identifier that may be followed by extensions, which start
    /// with a one-byte subtag.
    Locale,
    /// As `Locale`, and the parse stops at the first subtag it cannot place.
    Partial,
}

/// Why a language identifier could not be parsed.
#[derive(PartialEq, Eq, Structural, Clone, Copy, Debug)]
pub enum ParserError {
    /// The first subtag is not a language.
    InvalidLanguage,
    /// A later subtag is not a script, region or variant where one may stand.
    InvalidSubtag,
}

/// Which subtag the parser expects next.
#[derive(PartialEq, Eq, Structural, Clone, Copy, Debug)]
pub enum ParserPosition {
    Script,
    Region,
    Variant,
    Done,
}

pub open spec fn is_sep(b: u8) -> bool {
    b == 0x2d || b == 0x5f
}

/// The input split at every `-` and `_`.
pub open spec fn split_spec(s: Seq<u8>) -> Seq<Seq<u8>>
    decreases s.len(),
{
    if s.len() == 0 {
        seq![Seq::<u8>::empty()]
    } else {
        let prev = split_spec(s.drop_last());
        if is_sep(s.last()) {
            prev.push(Seq::<u8>::empty())
        } else {
            prev.update(prev.len() - 1, prev.last().push(s.last()))
        }
    }
}

pub open spec fn is_upper(b: u8) -> bool {
    0x41 <= b <= 0x5a
}

pub open spec fn is_lower(b: u8) -> bool {
    0x61 <= b <= 0x7a
}

pub open spec fn is_alpha(b: u8) -> bool {
    is_upper(b) || is_lower(b)
}

pub open spec fn is_digit(b: u8) -> bool {
    0x30 <= b <= 0x39
}

pub open spec fn is_alnum(b: u8) -> bool {
    is_alpha(b) || is_digit(b)
}

pub open spec fn to_lower(b: u8) -> u8 {
    if is_upper(b) {
        (b + 32) as u8
    } else {
        b
    }
}

pub open spec fn to_upper(b: u8) -> u8 {
    if is_lower(b) {
        (b - 32) as u8
    } else {
        b
    }
}

/// How the letters of a subtag are cased in its canonical form.
#[derive(PartialEq, Eq, Structural, Clone, Copy, Debug)]
pub enum Casing {
    Lower,
    Upper,
    Title,
}

pub open spec fn case_byte(b: u8, i: int, casing: Casing) -> u8 {
    match casing {
        Casing::Lower => to_lower(b),
        Casing::Upper => to_upper(b),
        Casing::Title => if i == 0 {
            to_upper(b)
        } else {
            to_lower(b)
        },
    }
}

pub open spec fn pow256(n: nat) -> nat
    decreases n,
{
    if n == 0 {
        1
    } else {
        256 * pow256((n - 1) as nat)
    }
}

/// The bytes read as a big-endian number.
pub open spec fn pack(s: Seq<u8>) -> nat
    decreases s.len(),
{
    if s.len() == 0 {
        0
    } else {
        pack(s.drop_last()) * 256 + (s.last() as nat)
    }
}

/// The subtag, cased and padded with zero bytes to `width`.
pub open spec fn padded(s: Seq<u8>, casing: Casing, width: nat) -> Seq<u8> {
    Seq::new(width, |i: int| if i < s.len() { case_byte(s[i], i, casing) } else { 0u8 })
}

/// The number that stands for the subtag `s`.
pub open spec fn packed(s: Seq<u8>, casing: Casing, width: nat) -> nat {
    pack(padded(s, casing, width))
}

pub open spec fn all_alpha(s: Seq<u8>) -> bool {
    forall|i: int| 0 <= i < s.len() ==> is_alpha(#[trigger] s[i])
}

pub open spec fn all_alnum(s: Seq<u8>) -> bool {
    forall|i: int| 0 <= i < s.len() ==> is_alnum(#[trigger] s[i])
}

pub open spec fn all_digit(s: Seq<u8>) -> bool {
    forall|i: int| 0 <= i < s.len() ==> is_digit(#[trigger] s[i])
}

pub open spec fn is_language(s: Seq<u8>) -> bool {
    (2 <= s.len() <= 3 || 5 <= s.len() <= 8) && all_alpha(s)
}

/// `und`, in any case, is the undetermined language, stored as zero.
pub open spec fn language_value(s: Seq<u8>) -> nat {
    if packed(s, Casing::Lower, 8) == packed(seq![0x75u8, 0x6eu8, 0x64u8], Casing::Lower, 8) {
        0
    } else {
        packed(s, Casing::Lower, 8)
    }
}

pub open spec fn is_script(s: Seq<u8>) -> bool {
    s.len() == 4 && all_alpha(s)
}

pub open spec fn is_region(s: Seq<u8>) -> bool {
    (s.len() == 2 && all_alpha(s)) || (s.len() == 3 && all_digit(s))
}

pub open spec fn is_variant(s: Seq<u8>) -> bool {
    (5 <= s.len() <= 8 && all_alnum(s)) || (s.len() == 4 && is_digit(s[0]) && all_alnum(s))
}

/// What one subtag does to a parse: it goes on from a new position with a
/// new partial identifier, or the parse ends with a result.
#[derive(Clone, Copy, Debug)]
pub enum ParseStep {
    Continue(ParserPosition, LanguageIdentifier),
    Stop(Result<LanguageIdentifier, ParserError>),
}

/// The effect of subtag `t` at position `pos`, with `acc` read so far.
pub open spec fn step_spec(
    t: Seq<u8>,
    pos: ParserPosition,
    acc: LanguageIdentifier,
    mode: ParserMode,
) -> ParseStep {
    if mode != ParserMode::LanguageIdentifier && t.len() == 1 {
        ParseStep::Stop(Ok(acc))
    } else if pos == ParserPosition::Script && is_script(t) {
        ParseStep::Continue(
            ParserPosition::Region,
            LanguageIdentifier { script: packed(t, Casing::Title, 4) as u32, ..acc },
        )
    } else if (pos == ParserPosition::Script || pos == ParserPosition::Region) && is_region(t) {
        ParseStep::Continue(
            ParserPosition::Variant,
            LanguageIdentifier { region: packed(t, Casing::Upper, 4) as u32, ..acc },
        )
    } else if pos != ParserPosition::Done && is_variant(t) {
        ParseStep::Continue(
            ParserPosition::Done,
            LanguageIdentifier { variant: packed(t, Casing::Lower, 8) as u64, ..acc },
        )
    } else if mode != ParserMode::Partial {
        ParseStep::Stop(Err(ParserError::InvalidSubtag))
    } else {
        ParseStep::Stop(Ok(acc))
    }
}

/// The identifier that the subtags from `i` on give, from position `pos` and
/// with what was read so far in `acc`.
pub open spec fn parse_rest(
    parts: Seq<Seq<u8>>,
    i: int,
    pos: ParserPosition,
    acc: LanguageIdentifier,
    mode: ParserMode,
) -> Result<LanguageIdentifier, ParserError>
    decreases parts.len() - i,
{
    if i < 0 || i >= parts.len() {
        Ok(acc)
    } else {
        match step_spec(parts[i], pos, acc, mode) {
            ParseStep::Continue(p, a) => parse_rest(parts, i + 1, p, a, mode),
            ParseStep::Stop(r) => r,
        }
    }
}

/// The identifier that the subtags `parts` spell in `mode`.
pub open spec fn parse_parts_spec(parts: Seq<Seq<u8>>, mode: ParserMode) -> Result<
    LanguageIdentifier,
    ParserError,
> {
    if parts.len() == 0 || !is_language(parts[0]) {
        Err(ParserError::InvalidLanguage)
    } else {
        parse_rest(
            parts,
            1,
            ParserPosition::Script,
            LanguageIdentifier {
                language: language_value(parts[0]) as u64,
                script: 0,
                region: 0,
                variant: 0,
            },
            mode,
        )
    }
}

/// The identifier that the bytes `s` spell in `mode`.
pub open spec fn parse_spec(s: Seq<u8>, mode: ParserMode) -> Result<LanguageIdentifier, ParserError> {
    parse_parts_spec(split_spec(s), mode)
}

proof fn lemma_split_nonempty(s: Seq<u8>)
    ensures
        split_spec(s).len() >= 1,
    decreases s.len(),
{
    if s.len() > 0 {
        lemma_split_nonempty(s.drop_last());
    }
}

proof fn lemma_pack_bound(s: Seq<u8>)
    ensures
        pack(s) < pow256(s.len()),
    decreases s.len(),
{
    if s.len() > 0 {
        lemma_pack_bound(s.drop_last());
        let p = pack(s.drop_last());
        let q = pow256(s.drop_last().len());
        let b = s.last() as nat;
        assert(p * 256 + b < q * 256) by (nonlinear_arith)
            requires
                p < q,
                b < 256,
        ;
    }
}

proof fn lemma_pow256_8()
    ensures
        pow256(4) == 0x1_0000_0000,
        pow256(8) == 0x1_0000_0000_0000_0000,
{
    reveal_with_fuel(pow256, 9);
}

proof fn lemma_pow256_mono(a: nat, b: nat)
    requires
        a <= b,
    ensures
        pow256(a) <= pow256(b),
    decreases b,
{
    if a < b {
        lemma_pow256_mono(a, (b - 1) as nat);
    }
}

/// The canonical case of byte `b` at index `i` of a subtag.
pub fn case_byte_exec(b: u8, i: usize, casing: Casing) -> (r: u8)
    ensures
        r == case_byte(b, i as int, casing),
{
    let upper = match casing {
        Casing::Lower => false,
        Casing::Upper => true,
        Casing::Title => i == 0,
    };
    if upper && 0x61 <= b && b <= 0x7a {
        b - 32
    } else if !upper && 0x41 <= b && b <= 0x5a {
        b + 32
    } else {
        b
    }
}

/// The number that stands for subtag `s` cased by `casing` in `width` bytes.
pub fn pack_subtag(s: &[u8], casing: Casing, width: usize) -> (r: u64)
    requires
        s@.len() <= width <= 8,
    ensures
        r as nat == packed(s@, casing, width as nat),
        r < pow256(width as nat),
{
    let ghost full = padded(s@, casing, width as nat);
    let mut acc: u64 = 0;
    let mut i: usize = 0;
    while i < width
        invariant
            i <= width <= 8,
            s@.len() <= width,
            full == padded(s@, casing, width as nat),
            acc as nat == pack(full.subrange(0, i as int)),
        decreases width - i,
    {
        let b: u8 = if i < s.len() {
            case_byte_exec(s[i], i, casing)
        } else {
            0
        };
        proof {
            assert(full.subrange(0, i + 1).drop_last() == full.subrange(0, i as int));
            assert(full[i as int] == b);
            lemma_pack_bound(full.subrange(0, i as int));
            lemma_pow256_mono((i + 1) as nat, 8);
            lemma_pow256_8();
            assert(pow256((i + 1) as nat) == 256 * pow256(i as nat));
        }
        acc = acc * 256 + b as u64;
        i = i + 1;
    }
    proof {
        assert(full.subrange(0, width as int) == full);
        lemma_pack_bound(full);
    }
    acc
}

pub fn is_alpha_exec(b: u8) -> (r: bool)
    ensures
        r == is_alpha(b),
{
    (0x41 <= b && b <= 0x5a) || (0x61 <= b && b <= 0x7a)
}

pub fn is_digit_exec(b: u8) -> (r: bool)
    ensures
        r == is_digit(b),
{
    0x30 <= b && b <= 0x39
}

/// Do all bytes of `s` pass: alphabetic (`kind` 0), digits (1) or alphanumeric (2)?
fn all_of(s: &[u8], kind: u8) -> (r: bool)
    ensures
        kind == 0 ==> r == all_alpha(s@),
        kind == 1 ==> r == all_digit(s@),
        kind == 2 ==> r == all_alnum(s@),
{
    let mut i: usize = 0;
    while i < s.len()
        invariant
            i <= s@.len(),
            kind == 0 ==> forall|k: int| 0 <= k < i ==> is_alpha(s@[k]),
            kind == 1 ==> forall|k: int| 0 <= k < i ==> is_digit(s@[k]),
            kind == 2 ==> forall|k: int| 0 <= k < i ==> is_alnum(s@[k]),
        decreases s@.len() - i,
    {
        let b = s[i];
        let ok = if kind == 0 {
            is_alpha_exec(b)
        } else if kind == 1 {
            is_digit_exec(b)
        } else {
            is_alpha_exec(b) || is_digit_exec(b)
        };
        if !ok {
            return false;
        }
        i = i + 1;
    }
    true
}

fn is_language_exec(s: &[u8]) -> (r: bool)
    ensures
        r == is_language(s@),
{
    let n = s.len();
    ((2 <= n && n <= 3) || (5 <= n && n <= 8)) && all_of(s, 0)
}

fn is_script_exec(s: &[u8]) -> (r: bool)
    ensures
        r == is_script(s@),
{
    s.len() == 4 && all_of(s, 0)
}

fn is_region_exec(s: &[u8]) -> (r: bool)
    ensures
        r == is_region(s@),
{
    (s.len() == 2 && all_of(s, 0)) || (s.len() == 3 && all_of(s, 1))
}

fn is_variant_exec(s: &[u8]) -> (r: bool)
    ensures
        r == is_variant(s@),
{
    let n = s.len();
    ((5 <= n && n <= 8) && all_of(s, 2)) || (n == 4 && is_digit_exec(s[0]) && all_of(s, 2))
}

/// The effect of one subtag on a parse.
pub fn parse_step(t: &[u8], pos: ParserPosition, acc: LanguageIdentifier, mode: ParserMode) -> (r:
    ParseStep)
    ensures
        r == step_spec(t@, pos, acc, mode),
{
    proof {
        lemma_pow256_8();
    }
    if mode != ParserMode::LanguageIdentifier && t.len() == 1 {
        ParseStep::Stop(Ok(acc))
    } else if pos == ParserPosition::Script && is_script_exec(t) {
        let v = pack_subtag(t, Casing::Title, 4);
        ParseStep::Continue(ParserPosition::Region, LanguageIdentifier { script: v as u32, ..acc })
    } else if (pos == ParserPosition::Script || pos == ParserPosition::Region) && is_region_exec(
        t,
    ) {
        let v = pack_subtag(t, Casing::Upper, 4);
        ParseStep::Continue(ParserPosition::Variant, LanguageIdentifier { region: v as u32, ..acc })
    } else if pos != ParserPosition::Done && is_variant_exec(t) {
        let v = pack_subtag(t, Casing::Lower, 8);
        ParseStep::Continue(ParserPosition::Done, LanguageIdentifier { variant: v, ..acc })
    } else if mode != ParserMode::Partial {
        ParseStep::Stop(Err(ParserError::InvalidSubtag))
    } else {
        ParseStep::Stop(Ok(acc))
    }
}

/// Splits the bytes at every `-` and `_`.
pub fn split_subtags(t: &[u8]) -> (r: Vec<Vec<u8>>)
    ensures
        r@.len() == split_spec(t@).len(),
        forall|k: int| 0 <= k < r@.len() ==> r@[k]@ == split_spec(t@)[k],
{
    let mut done: Vec<Vec<u8>> = Vec::new();
    let mut cur: Vec<u8> = Vec::new();
    let mut i: usize = 0;
    while i < t.len()
        invariant
            i <= t@.len(),
            split_spec(t@.subrange(0, i as int)).len() == done@.len() + 1,
            forall|k: int| 0 <= k < done@.len() ==> done@[k]@ == split_spec(
                t@.subrange(0, i as int),
            )[k],
            cur@ == split_spec(t@.subrange(0, i as int)).last(),
        decreases t@.len() - i,
    {
        let b = t[i];
        proof {
            assert(t@.subrange(0, i + 1).drop_last() == t@.subrange(0, i as int));
            assert(t@.subrange(0, i + 1).last() == b);
        }
        if b == 0x2d || b == 0x5f {
            done.push(cur);
            cur = Vec::new();
        } else {
            cur.push(b);
        }
        i = i + 1;
    }
    proof {
        assert(t@.subrange(0, t@.len() as int) == t@);
    }
    done.push(cur);
    done
}

/// The views of the subtags `parts`.
pub open spec fn parts_view(parts: Seq<Vec<u8>>) -> Seq<Seq<u8>> {
    Seq::new(parts.len(), |i: int| parts[i]@)
}

/// The index of the subtag before which a parse from position `pos` at
/// index `i` stops: the first it cannot take, or the end.
pub open spec fn parse_stop(
    parts: Seq<Seq<u8>>,
    i: int,
    pos: ParserPosition,
    acc: LanguageIdentifier,
    mode: ParserMode,
) -> int
    decreases parts.len() - i,
{
    if i < 0 || i >= parts.len() {
        parts.len() as int
    } else {
        match step_spec(parts[i], pos, acc, mode) {
            ParseStep::Continue(p, a) => parse_stop(parts, i + 1, p, a, mode),
            ParseStep::Stop(_) => i,
        }
    }
}

/// How many of the subtags `parts` a parse takes: none of an empty list, the
/// first alone where it is no language, else up to where the parse stops.
pub open spec fn parts_taken(parts: Seq<Seq<u8>>, mode: ParserMode) -> int {
    if parts.len() == 0 {
        0
    } else if !is_language(parts[0]) {
        1
    } else {
        parse_stop(
            parts,
            1,
            ParserPosition::Script,
            LanguageIdentifier {
                language: language_value(parts[0]) as u64,
                script: 0,
                region: 0,
                variant: 0,
            },
            mode,
        )
    }
}

/// Parses a language identifier from the subtags `parts`, starting at index
/// `*next`. Afterwards `*next` is the index of the first subtag not taken:
/// in `Locale` and `Partial` modes the one before which the parse stopped,
/// such as an extension's one-byte subtag.
pub fn parse_language_identifier_from_iter(
    parts: &Vec<Vec<u8>>,
    next: &mut usize,
    mode: ParserMode,
) -> (r: Result<LanguageIdentifier, ParserError>)
    requires
        *old(next) <= parts@.len(),
    ensures
        r == parse_parts_spec(parts_view(parts@).subrange(*old(next) as int, parts@.len() as int), mode),
        *final(next) == *old(next) + parts_taken(
            parts_view(parts@).subrange(*old(next) as int, parts@.len() as int),
            mode,
        ),
{
    let start = *next;
    let ghost parts_spec = parts_view(parts@).subrange(start as int, parts@.len() as int);
    if start == parts.len() {
        return Err(ParserError::InvalidLanguage);
    }
    proof {
        assert(parts[start as int]@ == parts_spec[0]);
    }
    if !is_language_exec(parts[start].as_slice()) {
        *next = start + 1;
        return Err(ParserError::InvalidLanguage);
    }
    let lang = pack_subtag(parts[start].as_slice(), Casing::Lower, 8);
    let und_bytes: [u8; 3] = [0x75, 0x6e, 0x64];
    let und = pack_subtag(und_bytes.as_slice(), Casing::Lower, 8);
    proof {
        assert(und_bytes@ == seq![0x75u8, 0x6eu8, 0x64u8]);
    }
    let language = if lang == und {
        0
    } else {
        lang
    };
    let ghost init = LanguageIdentifier { language, script: 0, region: 0, variant: 0 };
    let mut acc = LanguageIdentifier { language, script: 0, region: 0, variant: 0 };
    let mut pos = ParserPosition::Script;
    let mut i: usize = start + 1;
    while i < parts.len()
        invariant
            start < i <= parts@.len(),
            start == *old(next),
            parts_spec == parts_view(parts@).subrange(start as int, parts@.len() as int),
            parse_parts_spec(parts_spec, mode) == parse_rest(
                parts_spec,
                1,
                ParserPosition::Script,
                init,
                mode,
            ),
            parts_taken(parts_spec, mode) == parse_stop(
                parts_spec,
                1,
                ParserPosition::Script,
                init,
                mode,
            ),
            parse_rest(parts_spec, 1, ParserPosition::Script, init, mode) == parse_rest(
                parts_spec,
                i - start,
                pos,
                acc,
                mode,
            ),
            parse_stop(parts_spec, 1, ParserPosition::Script, init, mode) == parse_stop(
                parts_spec,
                i - start,
                pos,
                acc,
                mode,
            ),
        decreases parts@.len() - i,
    {
        let sub = parts[i].as_slice();
        proof {
            assert(sub@ == parts_spec[i - start]);
        }
        match parse_step(sub, pos, acc, mode) {
            ParseStep::Continue(p, a) => {
                pos = p;
                acc = a;
            },
            ParseStep::Stop(r) => {
                assert(parse_rest(parts_spec, i - start, pos, acc, mode) == r);
                assert(parse_stop(parts_spec, i - start, pos, acc, mode) == i - start);
                *next = i;
                return r;
            },
        }
        i = i + 1;
    }
    *next = i;
    Ok(acc)
}

/// Parses a language identifier such as `en`, `de-AT` or `sr_Latn_RS`.
///
/// The subtags are separated by `-` or `_`; the first must be a language,
/// which may be followed by a script, a region and a variant, each optional but
/// in that order. Letters are brought to their canonical case.
pub fn parse_language_identifier(t: &[u8], mode: ParserMode) -> (r: Result<
    LanguageIdentifier,
    ParserError,
>)
    ensures
        r == parse_spec(t@, mode),
{
    let parts = split_subtags(t);
    proof {
        assert(parts_view(parts@) =~= split_spec(t@));
        assert(parts_view(parts@).subrange(0, parts@.len() as int) == parts_view(parts@));
    }
    let mut next: usize = 0;
    parse_language_identifier_from_iter(&parts, &mut next, mode)
}

/// The bytes of the packed subtag `v` of `width` bytes, padding included.
pub open spec fn unpack(v: nat, width: nat) -> Seq<u8> {
    Seq::new(width, |i: int| ((v / pow256((width - 1 - i) as nat)) % 256) as u8)
}

/// The bytes of `s` before its first zero byte.
pub open spec fn nonzero_prefix(s: Seq<u8>) -> Seq<u8>
    decreases s.len(),
{
    if s.len() == 0 {
        s
    } else if s[0] == 0 {
        Seq::empty()
    } else {
        seq![s[0]] + nonzero_prefix(s.drop_first())
    }
}

/// The text of the subtag packed in `v`.
pub open spec fn subtag_text(v: nat, width: nat) -> Seq<u8> {
    nonzero_prefix(unpack(v, width))
}

/// `-` and the text of an optional subtag; nothing where it is absent.
pub open spec fn optional_text(v: nat, width: nat) -> Seq<u8> {
    if v == 0 {
        Seq::empty()
    } else {
        seq![0x2du8] + subtag_text(v, width)
    }
}

/// The canonical text of an identifier, such as `de-Arab-AT`.
pub open spec fn display_spec(l: LanguageIdentifier) -> Seq<u8> {
    let language = if l.language == 0 {
        seq![0x75u8, 0x6eu8, 0x64u8]
    } else {
        subtag_text(l.language as nat, 8)
    };
    language + optional_text(l.script as nat, 4) + optional_text(l.region as nat, 4)
        + optional_text(l.variant as nat, 8)
}

proof fn lemma_nonzero_prefix(s: Seq<u8>, i: int)
    requires
        0 <= i <= s.len(),
        forall|k: int| 0 <= k < i ==> s[k] != 0,
        i == s.len() || s[i] == 0,
    ensures
        nonzero_prefix(s) == s.subrange(0, i),
    decreases i,
{
    if i == 0 {
        if s.len() > 0 {
            assert(s[0] == 0);
        }
        assert(s.subrange(0, 0) =~= Seq::<u8>::empty());
        if s.len() == 0 {
            assert(s =~= Seq::<u8>::empty());
        }
    } else {
        let t = s.drop_first();
        assert forall|k: int| 0 <= k < i - 1 implies t[k] != 0 by {
            assert(t[k] == s[k + 1]);
        }
        lemma_nonzero_prefix(t, i - 1);
        assert(seq![s[0]] + t.subrange(0, i - 1) =~= s.subrange(0, i));
    }
}

/// 256 to the power `n`.
fn pow256_exec(n: usize) -> (r: u64)
    requires
        n < 8,
    ensures
        r as nat == pow256(n as nat),
{
    let mut r: u64 = 1;
    let mut i: usize = 0;
    while i < n
        invariant
            i <= n < 8,
            r as nat == pow256(i as nat),
        decreases n - i,
    {
        proof {
            lemma_pow256_mono((i + 1) as nat, 7);
            reveal_with_fuel(pow256, 8);
        }
        r = r * 256;
        i = i + 1;
    }
    r
}

/// Appends the text of the subtag packed in `v` of `width` bytes.
fn push_subtag(out: &mut Vec<u8>, v: u64, width: usize)
    requires
        1 <= width <= 8,
    ensures
        final(out)@ == old(out)@ + subtag_text(v as nat, width as nat),
{
    let ghost full = unpack(v as nat, width as nat);
    let ghost start = out@;
    let mut i: usize = 0;
    while i < width
        invariant
            i <= width <= 8,
            full == unpack(v as nat, width as nat),
            out@ == start + full.subrange(0, i as int),
            forall|k: int| 0 <= k < i ==> full[k] != 0,
        ensures
            i <= width,
            out@ == start + full.subrange(0, i as int),
            forall|k: int| 0 <= k < i ==> full[k] != 0,
            i == width || full[i as int] == 0,
        decreases width - i,
    {
        let p = pow256_exec(width - 1 - i);
        proof {
            lemma_pow256_mono(0, (width - 1 - i) as nat);
        }
        let b = ((v / p) % 256) as u8;
        proof {
            assert(full[i as int] == b);
        }
        if b == 0 {
            break;
        }
        out.push(b);
        proof {
            assert(full.subrange(0, i + 1) =~= full.subrange(0, i as int).push(b));
        }
        i = i + 1;
    }
    proof {
        lemma_nonzero_prefix(full, i as int);
    }
}

impl LanguageIdentifier {
    /// The canonical text of the identifier, such as `de-Arab-AT`; the
    /// undetermined language is written `und`.
    pub fn to_bytes(&self) -> (r: Vec<u8>)
        ensures
            r@ == display_spec(*self),
    {
        let mut out: Vec<u8> = Vec::new();
        if self.language == 0 {
            out.push(0x75);
            out.push(0x6e);
            out.push(0x64);
            proof {
                assert(out@ =~= seq![0x75u8, 0x6eu8, 0x64u8]);
            }
        } else {
            push_subtag(&mut out, self.language, 8);
        }
        let ghost lang = out@;
        if self.script != 0 {
            out.push(0x2d);
            push_subtag(&mut out, self.script as u64, 4);
        }
        proof {
            assert(out@ =~= lang + optional_text(self.script as nat, 4));
        }
        let ghost upto_script = out@;
        if self.region != 0 {
            out.push(0x2d);
            push_subtag(&mut out, self.region as u64, 4);
        }
        proof {
            assert(out@ =~= upto_script + optional_text(self.region as nat, 4));
        }
        let ghost upto_region = out@;
        if self.variant != 0 {
            out.push(0x2d);
            push_subtag(&mut out, self.variant, 8);
        }
        proof {
            assert(out@ =~= upto_region + optional_text(self.variant as nat, 8));
        }
        out
    }
}

impl SortedKey for LanguageIdentifier {
    open spec fn lt_spec(self, other: LanguageIdentifier) -> bool {
        langid_lt(self, other)
    }

    fn compare(&self, other: &LanguageIdentifier) -> (r: core::cmp::Ordering) {
        self.compare_to(other)
    }

    proof fn lemma_transitive(a: LanguageIdentifier, b: LanguageIdentifier, c: LanguageIdentifier) {
    }

    proof fn lemma_irreflexive(a: LanguageIdentifier) {
    }
}

/// The undetermined locale orders before every other identifier.
pub proof fn lemma_und_first(l: LanguageIdentifier)
    ensures
        langid_le(LanguageIdentifier::und_spec(), l),
{
}

} // verus!
