//! Key bindings: which keyboard character presses which keypad key.
use vstd::prelude::*;
use std::collections::HashMap;

verus! {

broadcast use vstd::std_specs::hash::group_hash_axioms;

/// The map that a list of (character, key) pairs describes: a later pair for
/// the same character replaces an earlier one.
pub open spec fn pairs_to_map(s: Seq<(char, usize)>) -> Map<char, usize>
    decreases s.len(),
{
    if s.len() == 0 {
        Map::empty()
    } else {
        pairs_to_map(s.drop_last()).insert(s.last().0, s.last().1)
    }
}

/// Beyond position `i` no pair names `k`, so the prefix up to `i` decides `k`.
proof fn lemma_tail_without_key(s: Seq<(char, usize)>, i: int, k: char)
    requires
        0 <= i <= s.len(),
        forall|j: int| i <= j < s.len() ==> #[trigger] s[j].0 != k,
    ensures
        pairs_to_map(s).contains_key(k) == pairs_to_map(s.take(i)).contains_key(k),
        pairs_to_map(s)[k] == pairs_to_map(s.take(i))[k],
    decreases s.len() - i,
{
    if i < s.len() {
        let t = s.drop_last();
        assert(t.take(i) =~= s.take(i));
        lemma_tail_without_key(t, i, k);
    } else {
        assert(s.take(i) =~= s);
    }
}

/// Every character of the map comes from some pair.
proof fn lemma_key_from_pair(s: Seq<(char, usize)>, k: char)
    requires
        pairs_to_map(s).contains_key(k),
    ensures
        exists|j: int| 0 <= j < s.len() && #[trigger] s[j].0 == k,
    decreases s.len(),
{
    if s.len() > 0 && s.last().0 != k {
        lemma_key_from_pair(s.drop_last(), k);
        let j = choose|j: int| 0 <= j < s.drop_last().len() && #[trigger] s.drop_last()[j].0 == k;
        assert(s[j].0 == k);
    }
}

/// Every keypad key, 0 through 15, is pressed by some character.
pub open spec fn covers_keypad(m: Map<char, usize>) -> bool {
    forall|n: usize| n < 16 ==> #[trigger] presses(m, n)
}

/// Every character presses a key that exists: one from 0 to 15.
pub open spec fn keys_in_range(m: Map<char, usize>) -> bool {
    forall|k: char| #[trigger] m.contains_key(k) ==> m[k] < 16
}

/// Some character is bound to keypad key `n`.
pub open spec fn presses(m: Map<char, usize>, n: usize) -> bool {
    exists|k: char| #[trigger] m.contains_key(k) && m[k] == n
}

/// The pairs of the layout used when no bindings are given.
pub open spec fn standard_pairs() -> Seq<(char, usize)> {
    seq![
        ('1', 1usize),
        ('2', 2usize),
        ('a', 7usize),
        ('3', 3usize),
        ('4', 12usize),
        ('c', 11usize),
        ('q', 4usize),
        ('x', 0usize),
        ('v', 15usize),
        ('w', 5usize),
        ('d', 9usize),
        ('r', 13usize),
        ('e', 6usize),
        ('f', 14usize),
        ('s', 8usize),
        ('z', 10usize),
    ]
}

/// Why a bindings text was not taken.
#[derive(Debug, PartialEq, Eq, Structural, Clone, Copy)]
pub enum BindingsError {
    /// The text is not a JSON object from single characters to numbers.
    Malformed,
    /// Some keypad key from 0 to 15 is pressed by no character.
    IncompleteKeypad,
}

/// Names what `serde_json::from_str` makes of a text read as a map from
/// characters to keypad keys, or `None` where it refuses the text.
pub uninterp spec fn json_key_bindings(text: Seq<char>) -> Option<Map<char, usize>>;

/// `serde_json::Error`, carried through as an opaque value.
#[verifier::external_type_specification]
#[verifier::external_body]
pub struct ExJsonError(serde_json::Error);

/// Calls `serde_json::from_str` for a `HashMap<char, usize>` and lists the
/// entries of the map it builds. Trusted: the call succeeds exactly where
/// `json_key_bindings` is `Some`, and the entries, each character once, make
/// up that map.
#[verifier::external_body]
fn parse_json_pairs(text: &str) -> (r: Result<Vec<(char, usize)>, serde_json::Error>)
    ensures
        r is Ok <==> json_key_bindings(text@) is Some,
        r matches Ok(v) ==> pairs_to_map(v@) == json_key_bindings(text@)->Some_0,
{
    match serde_json::from_str::<std::collections::HashMap<char, usize>>(text) {
        Ok(m) => Ok(m.into_iter().collect()),
        Err(e) => Err(e),
    }
}

/// Keeps bindings that press every keypad key from 0 to 15 and refuses the
/// others. Characters bound to further keys are kept as they are.
pub fn check_bindings(bindings: KeyBindings) -> (r: Result<KeyBindings, BindingsError>)
    ensures
        covers_keypad(bindings@) ==> (r matches Ok(b) && b@ == bindings@),
        !covers_keypad(bindings@) ==> r == Err::<KeyBindings, BindingsError>(
            BindingsError::IncompleteKeypad,
        ),
{
    if !bindings.covers_keypad() {
        Err(BindingsError::IncompleteKeypad)
    } else {
        Ok(bindings)
    }
}

/// Reads bindings from the JSON text of a bindings file: an object from
/// single characters to keypad keys, which must press every key from 0 to 15.
pub fn bindings_from_json(text: &str) -> (r: Result<KeyBindings, BindingsError>)
    ensures
        json_key_bindings(text@) is None ==> r == Err::<KeyBindings, BindingsError>(
            BindingsError::Malformed,
        ),
        json_key_bindings(text@) matches Some(m) ==> {
            &&& covers_keypad(m) ==> (r matches Ok(b) && b@ == m)
            &&& !covers_keypad(m) ==> r == Err::<KeyBindings, BindingsError>(
                BindingsError::IncompleteKeypad,
            )
        },
{
    match parse_json_pairs(text) {
        Ok(pairs) => check_bindings(KeyBindings::from_pairs(pairs)),
        Err(_) => Err(BindingsError::Malformed),
    }
}

/// A pair that no later pair overrides is in the map.
proof fn lemma_last_pair_in_map(s: Seq<(char, usize)>, i: int)
    requires
        0 <= i < s.len(),
        forall|j: int| i < j < s.len() ==> #[trigger] s[j].0 != s[i].0,
    ensures
        pairs_to_map(s).contains_key(s[i].0),
        pairs_to_map(s)[s[i].0] == s[i].1,
{
    lemma_tail_without_key(s, i + 1, s[i].0);
    assert(s.take(i + 1).drop_last() =~= s.take(i));
}

/// A character that some pair names is bound.
proof fn lemma_named_key_bound(s: Seq<(char, usize)>, j: int)
    requires
        0 <= j < s.len(),
    ensures
        pairs_to_map(s).contains_key(s[j].0),
    decreases s.len(),
{
    if j < s.len() - 1 {
        lemma_named_key_bound(s.drop_last(), j);
    }
}

/// The bindings a list of pairs describes: a character is bound exactly when
/// some pair names it, and then to the key of the last pair that names it.
pub proof fn lemma_last_pair_wins(s: Seq<(char, usize)>, c: char)
    ensures
        pairs_to_map(s).contains_key(c) <==> exists|j: int| 0 <= j < s.len() && #[trigger] s[j].0 == c,
        forall|i: int|
            0 <= i < s.len() && s[i].0 == c && (forall|j: int| i < j < s.len() ==> #[trigger] s[j].0 != c)
                ==> pairs_to_map(s)[c] == #[trigger] s[i].1,
{
    if pairs_to_map(s).contains_key(c) {
        lemma_key_from_pair(s, c);
    }
    if exists|j: int| 0 <= j < s.len() && #[trigger] s[j].0 == c {
        let j = choose|j: int| 0 <= j < s.len() && #[trigger] s[j].0 == c;
        lemma_named_key_bound(s, j);
    }
    assert forall|i: int|
        0 <= i < s.len() && s[i].0 == c && (forall|j: int| i < j < s.len() ==> #[trigger] s[j].0 != c)
            implies pairs_to_map(s)[c] == #[trigger] s[i].1 by {
        lemma_last_pair_in_map(s, i);
    }
}

/// Bindings that cover the keypad have a character for each key `n` from 0
/// to 15; one key left unpressed is enough for bindings not to cover it.
pub proof fn lemma_covering_means_every_key(m: Map<char, usize>, n: usize)
    ensures
        covers_keypad(m) && n < 16 ==> exists|c: char| #[trigger] m.contains_key(c) && m[c] == n,
        n < 16 && (forall|c: char| #[trigger] m.contains_key(c) ==> m[c] != n) ==> !covers_keypad(m),
{
    if n < 16 && (forall|c: char| #[trigger] m.contains_key(c) ==> m[c] != n) {
        assert(!presses(m, n));
    }
    if covers_keypad(m) && n < 16 {
        assert(presses(m, n));
    }
}

/// The standard layout presses every keypad key and binds no character
/// beyond them.
pub proof fn lemma_standard_layout_covers_keypad()
    ensures
        covers_keypad(pairs_to_map(standard_pairs())),
        keys_in_range(pairs_to_map(standard_pairs())),
{
    let s = standard_pairs();
    let m = pairs_to_map(s);
    assert forall|i: int, j: int| 0 <= i < j < 16 implies #[trigger] s[j].0 != #[trigger] s[i].0 by {}
    assert forall|n: usize| n < 16 implies #[trigger] presses(m, n) by {
        let i: int = choose|i: int| 0 <= i < 16 && s[i].1 == n;
        lemma_last_pair_in_map(s, i);
        assert(m.contains_key(s[i].0) && m[s[i].0] == n);
    }
    assert forall|k: char| #[trigger] m.contains_key(k) implies m[k] < 16 by {
        lemma_key_from_pair(s, k);
        let j = choose|j: int| 0 <= j < s.len() && #[trigger] s[j].0 == k;
        lemma_last_pair_in_map(s, j);
    }
}

/// The code of a character.
pub open spec fn char_code(c: char) -> u32 {
    c as u32
}

/// Different characters have different codes.
proof fn lemma_codes_differ(a: char, b: char)
    requires
        a != b,
    ensures
        a as u32 != b as u32,
{
}

/// The bindings of a map from character codes: each character is bound
/// where its code is.
pub open spec fn by_character(m: Map<u32, usize>) -> Map<char, usize> {
    Map::new(|c: char| m.contains_key(c as u32), |c: char| m[c as u32])
}

/// The characters bound to keypad keys, with the key each one presses,
/// kept in a hash map keyed by the character's code.
pub struct KeyBindings {
    map: HashMap<u32, usize>,
}

impl View for KeyBindings {
    type V = Map<char, usize>;

    closed spec fn view(&self) -> Map<char, usize> {
        by_character(self.map@)
    }
}

impl KeyBindings {
    /// Every key of the map is the code of a character.
    #[verifier::type_invariant]
    spec fn inv(self) -> bool {
        forall|k: u32| #[trigger] self.map@.contains_key(k) ==> exists|c: char| #[trigger] char_code(c) == k
    }

    /// The values of the map, as the `values` iterator lists them, describe
    /// exactly the keys that some character presses.
    proof fn lemma_values(&self, all: Seq<&usize>, n: usize)
        requires
            self.inv(),
            all.unref().to_set() == self.map@.values(),
        ensures
            presses(self@, n) <==> exists|j: int| 0 <= j < all.len() && *all[j] == n,
    {
        let vals = all.unref();
        if presses(self@, n) {
            let c = choose|c: char| #[trigger] self@.contains_key(c) && self@[c] == n;
            assert(self.map@.contains_key(c as u32));
            assert(self.map@.values().contains(n));
            assert(vals.to_set().contains(n));
            let j = choose|j: int| 0 <= j < vals.len() && vals[j] == n;
            assert(*all[j] == n);
        }
        if exists|j: int| 0 <= j < all.len() && *all[j] == n {
            let j = choose|j: int| 0 <= j < all.len() && *all[j] == n;
            assert(vals[j] == n);
            assert(vals.to_set().contains(n));
            let k = choose|k: u32| #[trigger] self.map@.contains_key(k) && self.map@[k] == n;
            let c = choose|c: char| #[trigger] char_code(c) == k;
            assert(self@.contains_key(c) && self@[c] == n);
        }
    }

    /// Bindings from a list of pairs; a later pair for a character replaces an earlier one.
    pub fn from_pairs(pairs: Vec<(char, usize)>) -> (b: KeyBindings)
        ensures
            b@ == pairs_to_map(pairs@),
    {
        let mut map: HashMap<u32, usize> = HashMap::new();
        let mut i: usize = 0;
        while i < pairs.len()
            invariant
                i <= pairs@.len(),
                by_character(map@) == pairs_to_map(pairs@.take(i as int)),
                forall|k: u32| #[trigger] map@.contains_key(k) ==> exists|c: char| #[trigger] char_code(c) == k,
            decreases pairs@.len() - i,
        {
            let (c, v) = pairs[i];
            let ghost before = map@;
            map.insert(c as u32, v);
            proof {
                assert(pairs@.take(i + 1).drop_last() =~= pairs@.take(i as int));
                assert(map@ == before.insert(c as u32, v));
                assert forall|d: char| #[trigger] by_character(map@).contains_key(d)
                    == by_character(before).insert(c, v).contains_key(d) by {
                    if d != c {
                        lemma_codes_differ(d, c);
                    }
                }
                assert forall|d: char| #[trigger] by_character(map@).contains_key(d) implies by_character(
                    map@,
                )[d] == by_character(before).insert(c, v)[d] by {
                    if d != c {
                        lemma_codes_differ(d, c);
                    }
                }
                assert(by_character(map@) =~= by_character(before).insert(c, v));
                assert forall|k: u32| #[trigger] map@.contains_key(k) implies exists|d: char| #[trigger] char_code(d) == k by {
                    if k == c as u32 {
                        assert(char_code(c) == k);
                    } else {
                        assert(before.contains_key(k));
                    }
                }
            }
            i = i + 1;
        }
        assert(pairs@.take(pairs@.len() as int) =~= pairs@);
        KeyBindings { map }
    }

    /// The layout used when no bindings are given.
    pub fn standard() -> (b: KeyBindings)
        ensures
            b@ == pairs_to_map(standard_pairs()),
    {
        let pairs = vec![
            ('1', 1usize),
            ('2', 2usize),
            ('a', 7usize),
            ('3', 3usize),
            ('4', 12usize),
            ('c', 11usize),
            ('q', 4usize),
            ('x', 0usize),
            ('v', 15usize),
            ('w', 5usize),
            ('d', 9usize),
            ('r', 13usize),
            ('e', 6usize),
            ('f', 14usize),
            ('s', 8usize),
            ('z', 10usize),
        ];
        assert(pairs@ =~= standard_pairs());
        Self::from_pairs(pairs)
    }

    /// Whether `key` is bound to some keypad key.
    pub fn contains(&self, key: char) -> (r: bool)
        ensures
            r == self@.contains_key(key),
    {
        self.lookup(key).is_some()
    }

    /// Whether every keypad key, 0 through 15, is pressed by some character.
    pub fn covers_keypad(&self) -> (r: bool)
        ensures
            r == covers_keypad(self@),
    {
        proof {
            use_type_invariant(self);
        }
        let ghost all = vstd::std_specs::iter::IteratorSpec::remaining(
            &vstd::std_specs::hash::spec_values_iter(&self.map),
        );
        let mut found = [false; 16];
        let ghost mut seen: int = 0;
        for v in it: self.map.values()
            invariant
                it.seq() == all,
                seen == it.index(),
                forall|n: int|
                    0 <= n < 16 ==> #[trigger] found@[n] == exists|j: int|
                        0 <= j < it.index() && *all[j] == n,
        {
            if *v < 16 {
                found[*v] = true;
            }
            proof {
                seen = seen + 1;
            }
        }
        assert(seen == all.len());
        let ghost this = *self;
        assert(all.unref().to_set() == self.map@.values());
        let mut n: usize = 0;
        while n < 16
            invariant
                n <= 16,
                this == *self,
                this.inv(),
                all.unref().to_set() == self.map@.values(),
                forall|m: int|
                    0 <= m < 16 ==> #[trigger] found@[m] == exists|j: int|
                        0 <= j < all.len() && *all[j] == m,
                forall|m: usize| m < n ==> #[trigger] presses(self@, m),
            decreases 16 - n,
        {
            proof {
                self.lemma_values(all, n);
            }
            if !found[n] {
                return false;
            }
            n = n + 1;
        }
        true
    }

    /// The keypad key bound to `key`, if any.
    pub fn lookup(&self, key: char) -> (r: Option<usize>)
        ensures
            r == (if self@.contains_key(key) {
                Some(self@[key])
            } else {
                None
            }),
    {
        match self.map.get(&(key as u32)) {
            Some(v) => Some(*v),
            None => None,
        }
    }
}

} // verus!
