//! The YAML value model and its minimal block-style emitter.
//!
//! Parsing text into values and converting typed values go through serde
//! and stay with the caller; this module holds the dynamic [`Value`] tree,
//! its insertion-ordered [`Mapping`], and the rules that turn a tree into
//! YAML text (quoting, indentation, flow forms for empty containers).
use vstd::prelude::*;
use crate::text::{is_ws, is_ws_exec, str_eq};

verus! {

broadcast use vstd::std_specs::vec::group_vec_axioms;

// ---------------------------------------------------------------------------
// Errors and options
// ---------------------------------------------------------------------------

/// Error produced by the YAML layer.
#[derive(Debug, PartialEq)]
pub enum YamlError {
    /// Parsing failed.
    Parse(String),
    /// Serialization failed.
    Serialize(String),
    /// A duplicate mapping key was rejected.
    DuplicateKey(String),
    /// A parser budget (depth, anchors, events) was exceeded.
    Budget(String),
}

/// Model of a [`YamlError`].
pub enum YamlErrorModel {
    Parse(Seq<char>),
    Serialize(Seq<char>),
    DuplicateKey(Seq<char>),
    Budget(Seq<char>),
}

impl View for YamlError {
    type V = YamlErrorModel;

    open spec fn view(&self) -> YamlErrorModel {
        match self {
            YamlError::Parse(m) => YamlErrorModel::Parse(m@),
            YamlError::Serialize(m) => YamlErrorModel::Serialize(m@),
            YamlError::DuplicateKey(m) => YamlErrorModel::DuplicateKey(m@),
            YamlError::Budget(m) => YamlErrorModel::Budget(m@),
        }
    }
}

/// The rendered text of a YAML error.
pub open spec fn yaml_error_message(e: YamlErrorModel) -> Seq<char> {
    match e {
        YamlErrorModel::Parse(m) => "yaml parse error: "@ + m,
        YamlErrorModel::Serialize(m) => "yaml serialize error: "@ + m,
        YamlErrorModel::DuplicateKey(m) => "duplicate mapping key: "@ + m,
        YamlErrorModel::Budget(m) => "yaml budget exceeded: "@ + m,
    }
}

impl YamlError {
    /// The rendered text of this error.
    pub fn message(&self) -> (r: String)
        ensures
            r@ == yaml_error_message(self@),
    {
        let (prefix, m) = match self {
            YamlError::Parse(m) => ("yaml parse error: ", m),
            YamlError::Serialize(m) => ("yaml serialize error: ", m),
            YamlError::DuplicateKey(m) => ("duplicate mapping key: ", m),
            YamlError::Budget(m) => ("yaml budget exceeded: ", m),
        };
        let mut s = String::from_str(prefix);
        s.append(m.as_str());
        s
    }
}

/// Duplicate-key handling policy.
#[derive(Debug, Clone, Copy, PartialEq, Eq, Structural)]
pub enum DuplicateKeyPolicy {
    /// Reject duplicates as an error.
    Error,
    /// Keep the first occurrence.
    FirstWins,
    /// Overwrite earlier occurrences with the last one.
    LastWins,
}

impl Default for DuplicateKeyPolicy {
    fn default() -> (r: DuplicateKeyPolicy)
        ensures
            r == DuplicateKeyPolicy::Error,
    {
        DuplicateKeyPolicy::Error
    }
}

/// Resource budget for parsing.
#[derive(Debug, Clone, Copy, PartialEq, Eq, Structural)]
pub struct Budget {
    /// Maximum number of anchors.
    pub max_anchors: usize,
    /// Maximum document depth.
    pub max_depth: usize,
    /// Maximum number of parser events.
    pub max_events: usize,
}

impl Default for Budget {
    fn default() -> (r: Budget)
        ensures
            r.max_anchors == 200 && r.max_depth == 100 && r.max_events == 50_000,
    {
        Budget { max_anchors: 200, max_depth: 100, max_events: 50_000 }
    }
}

/// Options controlling a parse call.
#[derive(Debug, Clone, Copy, PartialEq, Eq, Structural)]
pub struct YamlOptions {
    /// Duplicate-key policy.
    pub duplicate_keys: DuplicateKeyPolicy,
    /// Parser budget.
    pub budget: Budget,
}

impl Default for YamlOptions {
    fn default() -> (r: YamlOptions)
        ensures
            r.duplicate_keys == DuplicateKeyPolicy::Error,
            r.budget.max_anchors == 200 && r.budget.max_depth == 100 && r.budget.max_events == 50_000,
    {
        YamlOptions { duplicate_keys: DuplicateKeyPolicy::default(), budget: Budget::default() }
    }
}

/// `c` lower-cases (in ASCII) to `n`.
pub open spec fn folds_to(c: char, n: char) -> bool {
    c == n || ('A' <= c && c <= 'Z' && (c as u32) + 32 == (n as u32))
}

/// `needle` (lower-case ASCII) occurs in `s` at position `i`, ignoring ASCII case.
pub open spec fn occurs_folded_at(s: Seq<char>, needle: Seq<char>, i: int) -> bool {
    0 <= i && i + needle.len() <= s.len() && forall|k: int| 0 <= k < needle.len() ==> #[trigger] folds_to(s[i + k], needle[k])
}

/// The backend message mentions a duplicate, in any letter case.
pub open spec fn mentions_duplicate(msg: Seq<char>) -> bool {
    exists|i: int| occurs_folded_at(msg, "duplicate"@, i)
}

fn folds_to_exec(c: char, n: char) -> (r: bool)
    ensures
        r == folds_to(c, n),
{
    c == n || ('A' <= c && c <= 'Z' && (c as u32) + 32 == (n as u32))
}

fn occurs_folded_at_exec(s: &str, needle: &str, i: usize) -> (r: bool)
    requires
        i <= s@.len(),
    ensures
        r == occurs_folded_at(s@, needle@, i as int),
{
    let n = s.unicode_len();
    let m = needle.unicode_len();
    if m > n - i {
        return false;
    }
    let mut k: usize = 0;
    while k < m
        invariant
            n == s@.len(),
            m == needle@.len(),
            i + m <= n,
            k <= m,
            forall|q: int| 0 <= q < k ==> #[trigger] folds_to(s@[i + q], needle@[q]),
        decreases m - k,
    {
        if !folds_to_exec(s.get_char(i + k), needle.get_char(k)) {
            return false;
        }
        k = k + 1;
    }
    true
}

/// Maps a backend error message to its error kind: a message that mentions
/// "duplicate" (in any letter case) is a duplicate-key error, any other a
/// parse error.
///
/// Matching is done on ASCII letter case; no other character lower-cases to
/// a letter of "duplicate", so this is the same as searching the fully
/// lower-cased message.
pub fn classify_parse_error(msg: &str) -> (r: YamlError)
    ensures
        r@ == if mentions_duplicate(msg@) {
            YamlErrorModel::DuplicateKey(msg@)
        } else {
            YamlErrorModel::Parse(msg@)
        },
{
    proof {
        reveal_strlit("duplicate");
    }
    let n = msg.unicode_len();
    let mut i: usize = 0;
    while i < n
        invariant
            i <= n,
            n == msg@.len(),
            forall|j: int| 0 <= j < i ==> !occurs_folded_at(msg@, "duplicate"@, j),
        decreases n - i,
    {
        if occurs_folded_at_exec(msg, "duplicate", i) {
            return YamlError::DuplicateKey(String::from_str(msg));
        }
        i = i + 1;
    }
    proof {
        assert("duplicate"@.len() == 9);
    }
    YamlError::Parse(String::from_str(msg))
}


// ---------------------------------------------------------------------------
// Dynamic values
// ---------------------------------------------------------------------------

/// Dynamic YAML value.
#[derive(Debug, PartialEq)]
pub enum Value {
    /// `null`.
    Null,
    /// Boolean.
    Bool(bool),
    /// Integer.
    Int(i64),
    /// Floating-point value, held by its IEEE-754 bit pattern and by its
    /// shortest decimal text (as Rust's `Display` prints it).
    Float { bits: u64, text: String },
    /// Unicode string scalar.
    String(String),
    /// Ordered sequence.
    Sequence(Vec<Value>),
    /// Ordered mapping (insertion order is preserved).
    Mapping(Mapping),
}

/// Insertion-ordered YAML mapping.
#[derive(Debug, PartialEq)]
pub struct Mapping {
    /// The entries in insertion order.
    pub entries: Vec<(Value, Value)>,
}

/// Model of a [`Value`].
pub enum YamlModel {
    Null,
    Bool(bool),
    Int(int),
    /// Bit pattern and decimal text.
    Float(int, Seq<char>),
    Str(Seq<char>),
    List(Seq<YamlModel>),
    /// Keys and values, entry by entry.
    Dict(Seq<YamlModel>, Seq<YamlModel>),
}

impl View for Value {
    type V = YamlModel;

    open spec fn view(&self) -> YamlModel
        decreases self,
    {
        match self {
            Value::Null => YamlModel::Null,
            Value::Bool(b) => YamlModel::Bool(*b),
            Value::Int(i) => YamlModel::Int(*i as int),
            Value::Float { bits, text } => YamlModel::Float(*bits as int, text@),
            Value::String(s) => YamlModel::Str(s@),
            Value::Sequence(v) => YamlModel::List(
                Seq::new(v.len() as nat, |i: int| if 0 <= i < v.len() { v[i].view() } else { YamlModel::Null }),
            ),
            Value::Mapping(m) => YamlModel::Dict(
                Seq::new(
                    m.entries.len() as nat,
                    |i: int| if 0 <= i < m.entries.len() { m.entries[i].0.view() } else { YamlModel::Null },
                ),
                Seq::new(
                    m.entries.len() as nat,
                    |i: int| if 0 <= i < m.entries.len() { m.entries[i].1.view() } else { YamlModel::Null },
                ),
            ),
        }
    }
}

impl View for Mapping {
    type V = (Seq<YamlModel>, Seq<YamlModel>);

    open spec fn view(&self) -> (Seq<YamlModel>, Seq<YamlModel>) {
        (
            Seq::new(
                self.entries.len() as nat,
                |i: int| if 0 <= i < self.entries.len() { self.entries[i].0.view() } else { YamlModel::Null },
            ),
            Seq::new(
                self.entries.len() as nat,
                |i: int| if 0 <= i < self.entries.len() { self.entries[i].1.view() } else { YamlModel::Null },
            ),
        )
    }
}

/// The float bit pattern `b` is a NaN: all exponent bits set and a
/// non-zero fraction.
pub open spec fn is_nan_bits(b: int) -> bool {
    (b / 0x10_0000_0000_0000) % 0x800 == 0x7ff && b % 0x10_0000_0000_0000 != 0
}

/// The float bit pattern `b` is a zero of either sign.
pub open spec fn is_zero_bits(b: int) -> bool {
    b % 0x8000_0000_0000_0000 == 0
}

/// IEEE-754 equality of two float bit patterns: never for a NaN; positive
/// and negative zero are equal; otherwise equal patterns.
pub open spec fn float_eq(a: int, b: int) -> bool {
    !is_nan_bits(a) && !is_nan_bits(b) && (a == b || (is_zero_bits(a) && is_zero_bits(b)))
}

/// Equality of values as `==` decides it: structural, with floats compared
/// by IEEE-754 rules.
pub open spec fn yaml_eq(a: YamlModel, b: YamlModel) -> bool
    decreases a,
{
    match a {
        YamlModel::Null => b is Null,
        YamlModel::Bool(x) => b matches YamlModel::Bool(y) && x == y,
        YamlModel::Int(x) => b matches YamlModel::Int(y) && x == y,
        YamlModel::Float(x, _) => b matches YamlModel::Float(y, _) && float_eq(x, y),
        YamlModel::Str(x) => b matches YamlModel::Str(y) && x == y,
        YamlModel::List(xs) => match b {
            YamlModel::List(ys) => xs.len() == ys.len() && forall|i: int|
                0 <= i < xs.len() ==> yaml_eq(#[trigger] xs[i], ys[i]),
            _ => false,
        },
        YamlModel::Dict(ks, vs) => match b {
            YamlModel::Dict(ks2, vs2) => ks.len() == ks2.len() && vs.len() == vs2.len() && ks.len() == vs.len()
                && forall|i: int| 0 <= i < ks.len() ==> yaml_eq(#[trigger] ks[i], ks2[i]) && yaml_eq(vs[i], vs2[i]),
            _ => false,
        },
    }
}

fn float_eq_exec(a: u64, b: u64) -> (r: bool)
    ensures
        r == float_eq(a as int, b as int),
{
    let nan_a = (a / 0x10_0000_0000_0000) % 0x800 == 0x7ff && a % 0x10_0000_0000_0000 != 0;
    let nan_b = (b / 0x10_0000_0000_0000) % 0x800 == 0x7ff && b % 0x10_0000_0000_0000 != 0;
    !nan_a && !nan_b && (a == b || (a % 0x8000_0000_0000_0000 == 0 && b % 0x8000_0000_0000_0000 == 0))
}

/// The model of a sequence value lists the models of its items.
pub proof fn lemma_list_view(v: &Value)
    requires
        *v is Sequence,
    ensures
        v@ == YamlModel::List(list_view(v->Sequence_0@)),
{
    let xs = v->Sequence_0;
    assert(v@->List_0 =~= list_view(xs@)) by {
        assert forall|j: int| 0 <= j < xs@.len() implies v@->List_0[j] == list_view(xs@)[j] by {
            assert(xs[j] == xs@[j]);
        }
    }
}

/// The model of a mapping value is the model of its mapping.
pub proof fn lemma_dict_view(v: &Value)
    requires
        *v is Mapping,
    ensures
        v@ == YamlModel::Dict(v->Mapping_0@.0, v->Mapping_0@.1),
{
    let m = v->Mapping_0;
    assert(v@->Dict_0 =~= m@.0);
    assert(v@->Dict_1 =~= m@.1);
}

/// Decides [`yaml_eq`].
pub fn value_eq(a: &Value, b: &Value) -> (r: bool)
    ensures
        r == yaml_eq(a@, b@),
    decreases a,
{
    match a {
        Value::Null => match b {
            Value::Null => true,
            _ => false,
        },
        Value::Bool(x) => match b {
            Value::Bool(y) => *x == *y,
            _ => false,
        },
        Value::Int(x) => match b {
            Value::Int(y) => *x == *y,
            _ => false,
        },
        Value::Float { bits: x, .. } => match b {
            Value::Float { bits: y, .. } => float_eq_exec(*x, *y),
            _ => false,
        },
        Value::String(x) => match b {
            Value::String(y) => str_eq(x.as_str(), y.as_str()),
            _ => false,
        },
        Value::Sequence(xs) => match b {
            Value::Sequence(ys) => {
                proof {
                    lemma_list_view(a);
                    lemma_list_view(b);
                }
                list_eq(xs, ys)
            },
            _ => false,
        },
        Value::Mapping(m) => match b {
            Value::Mapping(m2) => {
                proof {
                    lemma_dict_view(a);
                    lemma_dict_view(b);
                }
                dict_eq(m, m2)
            },
            _ => false,
        },
    }
}

/// The models of a list of values.
pub open spec fn list_view(v: Seq<Value>) -> Seq<YamlModel> {
    v.map_values(|x: Value| x@)
}

fn list_eq(xs: &Vec<Value>, ys: &Vec<Value>) -> (r: bool)
    ensures
        r == (xs@.len() == ys@.len() && forall|j: int|
            0 <= j < xs@.len() ==> yaml_eq(#[trigger] list_view(xs@)[j], list_view(ys@)[j])),
    decreases xs,
{
    if xs.len() != ys.len() {
        return false;
    }
    let mut i: usize = 0;
    while i < xs.len()
        invariant
            i <= xs@.len(),
            xs@.len() == ys@.len(),
            forall|j: int| 0 <= j < i ==> yaml_eq(#[trigger] list_view(xs@)[j], list_view(ys@)[j]),
        decreases xs@.len() - i,
    {
        proof {
            assert(decreases_to!(*xs => xs[i as int]));
        }
        if !value_eq(&xs[i], &ys[i]) {
            assert(!yaml_eq(list_view(xs@)[i as int], list_view(ys@)[i as int]));
            return false;
        }
        i = i + 1;
    }
    true
}

fn dict_eq(m: &Mapping, m2: &Mapping) -> (r: bool)
    ensures
        r == (m@.0.len() == m2@.0.len() && forall|j: int|
            0 <= j < m@.0.len() ==> yaml_eq(#[trigger] m@.0[j], m2@.0[j]) && yaml_eq(m@.1[j], m2@.1[j])),
    decreases m,
{
    let xs = &m.entries;
    let ys = &m2.entries;
    if xs.len() != ys.len() {
        return false;
    }
    let mut i: usize = 0;
    while i < xs.len()
        invariant
            i <= xs@.len(),
            xs == &m.entries,
            ys == &m2.entries,
            xs@.len() == ys@.len(),
            forall|j: int| 0 <= j < i ==> yaml_eq(#[trigger] m@.0[j], m2@.0[j]) && yaml_eq(m@.1[j], m2@.1[j]),
        decreases xs@.len() - i,
    {
        proof {
            assert(decreases_to!(m.entries => m.entries[i as int]));
        }
        assert(m@.0[i as int] == xs@[i as int].0@ && m2@.0[i as int] == ys@[i as int].0@) by {
            assert(m.entries[i as int] == xs@[i as int]);
            assert(m2.entries[i as int] == ys@[i as int]);
        }
        assert(m@.1[i as int] == xs@[i as int].1@ && m2@.1[i as int] == ys@[i as int].1@) by {
            assert(m.entries[i as int] == xs@[i as int]);
            assert(m2.entries[i as int] == ys@[i as int]);
        }
        if !value_eq(&xs[i].0, &ys[i].0) {
            return false;
        }
        if !value_eq(&xs[i].1, &ys[i].1) {
            return false;
        }
        i = i + 1;
    }
    true
}



/// The position of the first key of `ks` equal to `k`.
pub open spec fn first_key_match(ks: Seq<YamlModel>, k: YamlModel, i: int) -> Option<int>
    decreases ks.len() - i,
{
    if i < 0 || i >= ks.len() {
        None
    } else if yaml_eq(ks[i], k) {
        Some(i)
    } else {
        first_key_match(ks, k, i + 1)
    }
}

proof fn lemma_first_key_match(ks: Seq<YamlModel>, k: YamlModel, i: int)
    requires
        0 <= i,
    ensures
        first_key_match(ks, k, i) matches Some(j) ==> i <= j < ks.len() && yaml_eq(ks[j], k),
    decreases ks.len() - i,
{
    if i < ks.len() && !yaml_eq(ks[i], k) {
        lemma_first_key_match(ks, k, i + 1);
    }
}

impl Mapping {
    /// Creates an empty mapping.
    pub fn new() -> (r: Mapping)
        ensures
            r@.0.len() == 0 && r@.1.len() == 0,
    {
        Mapping { entries: Vec::new() }
    }

    fn find(&self, key: &Value) -> (r: Option<usize>)
        ensures
            match r {
                Some(i) => first_key_match(self@.0, key@, 0) == Some(i as int) && i < self.entries@.len(),
                None => first_key_match(self@.0, key@, 0) is None,
            },
    {
        let ghost ks = self@.0;
        let mut i: usize = 0;
        while i < self.entries.len()
            invariant
                i <= self.entries@.len(),
                ks == self@.0,
                ks.len() == self.entries@.len(),
                first_key_match(ks, key@, 0) == first_key_match(ks, key@, i as int),
            decreases self.entries@.len() - i,
        {
            assert(ks[i as int] == self.entries@[i as int].0@) by {
                assert(self.entries[i as int] == self.entries@[i as int]);
            }
            if value_eq(&self.entries[i].0, key) {
                return Some(i);
            }
            i = i + 1;
        }
        None
    }

    /// Inserts a `(key, value)` pair. If an equal key exists, its entry is
    /// updated in place (keeping its position and key) and the previous
    /// value is returned; otherwise the pair is appended.
    pub fn insert(&mut self, key: Value, value: Value) -> (r: Option<Value>)
        ensures
            match first_key_match(old(self)@.0, key@, 0) {
                Some(i) => final(self)@.0 == old(self)@.0 && final(self)@.1 == old(self)@.1.update(i, value@) && (
                r matches Some(p) && p@ == old(self)@.1[i]),
                None => final(self)@.0 == old(self)@.0.push(key@) && final(self)@.1 == old(self)@.1.push(value@)
                    && r is None,
            },
    {
        match self.find(&key) {
            Some(i) => {
                let ghost e0 = self.entries@;
                let (k, prev) = self.entries.remove(i);
                self.entries.insert(i, (k, value));
                proof {
                    let e1 = self.entries@;
                    assert(e1.len() == e0.len());
                    assert forall|j: int| 0 <= j < e1.len() implies #[trigger] e1[j] == (if j == i {
                        (e0[j].0, value)
                    } else {
                        e0[j]
                    }) by {}
                    assert(self@.0 =~= old(self)@.0) by {
                        assert forall|j: int| 0 <= j < e1.len() implies self@.0[j] == old(self)@.0[j] by {
                            assert(self.entries[j] == e1[j]);
                            assert(old(self).entries[j] == e0[j]);
                        }
                    }
                    assert(self@.1 =~= old(self)@.1.update(i as int, value@)) by {
                        assert forall|j: int| 0 <= j < e1.len() implies self@.1[j] == old(self)@.1.update(i as int, value@)[j] by {
                            assert(self.entries[j] == e1[j]);
                            assert(old(self).entries[j] == e0[j]);
                        }
                    }
                    assert(prev@ == old(self)@.1[i as int]) by {
                        assert(old(self).entries[i as int] == e0[i as int]);
                    }
                }
                Some(prev)
            },
            None => {
                let ghost e0 = self.entries@;
                self.entries.push((key, value));
                proof {
                    let e1 = self.entries@;
                    assert(self@.0 =~= old(self)@.0.push(key@)) by {
                        assert forall|j: int| 0 <= j < e1.len() implies self@.0[j] == old(self)@.0.push(key@)[j] by {
                            assert(self.entries[j] == e1[j]);
                            if j < e0.len() {
                                assert(old(self).entries[j] == e0[j]);
                            }
                        }
                    }
                    assert(self@.1 =~= old(self)@.1.push(value@)) by {
                        assert forall|j: int| 0 <= j < e1.len() implies self@.1[j] == old(self)@.1.push(value@)[j] by {
                            assert(self.entries[j] == e1[j]);
                            if j < e0.len() {
                                assert(old(self).entries[j] == e0[j]);
                            }
                        }
                    }
                }
                None
            },
        }
    }

    /// Looks up the value of the first key equal to `key`.
    pub fn get(&self, key: &Value) -> (r: Option<&Value>)
        ensures
            match first_key_match(self@.0, key@, 0) {
                Some(i) => (r matches Some(v) && v@ == self@.1[i]),
                None => r is None,
            },
    {
        match self.find(key) {
            Some(i) => {
                assert(self@.1[i as int] == self.entries@[i as int].1@) by {
                    assert(self.entries[i as int] == self.entries@[i as int]);
                }
                Some(&self.entries[i].1)
            },
            None => None,
        }
    }

    /// The `(key, value)` pairs in insertion order.
    pub fn iter(&self) -> (r: &[(Value, Value)])
        ensures
            r@ == self.entries@,
            r@.len() == self@.0.len(),
            forall|i: int| 0 <= i < r@.len() ==> (#[trigger] r@[i]).0@ == self@.0[i] && r@[i].1@ == self@.1[i],
    {
        proof {
            assert forall|i: int| 0 <= i < self.entries@.len() implies (#[trigger] self.entries@[i]).0@ == self@.0[i]
                && self.entries@[i].1@ == self@.1[i] by {
                assert(self.entries[i] == self.entries@[i]);
            }
        }
        self.entries.as_slice()
    }

    /// Number of entries.
    pub fn len(&self) -> (n: usize)
        ensures
            n == self@.0.len(),
    {
        self.entries.len()
    }

    /// Whether the mapping has no entries.
    pub fn is_empty(&self) -> (r: bool)
        ensures
            r == (self@.0.len() == 0),
    {
        self.entries.len() == 0
    }
}

impl Value {
    /// Whether the value is a mapping.
    pub fn is_mapping(&self) -> (r: bool)
        ensures
            r == (self@ is Dict),
    {
        match self {
            Value::Mapping(_) => true,
            _ => false,
        }
    }

    /// The underlying mapping, if this value is a mapping.
    pub fn as_mapping(&self) -> (r: Option<&Mapping>)
        ensures
            match r {
                Some(m) => self@ == YamlModel::Dict(m@.0, m@.1),
                None => !(self@ is Dict),
            },
    {
        match self {
            Value::Mapping(m) => {
                proof {
                    lemma_dict_view(self);
                }
                Some(m)
            },
            _ => None,
        }
    }

    /// Whether the value is a sequence.
    pub fn is_sequence(&self) -> (r: bool)
        ensures
            r == (self@ is List),
    {
        match self {
            Value::Sequence(_) => true,
            _ => false,
        }
    }

    /// The underlying items, if this value is a sequence.
    pub fn as_sequence(&self) -> (r: Option<&Vec<Value>>)
        ensures
            match r {
                Some(v) => self@ == YamlModel::List(list_view(v@)),
                None => !(self@ is List),
            },
    {
        match self {
            Value::Sequence(v) => {
                proof {
                    lemma_list_view(self);
                }
                Some(v)
            },
            _ => None,
        }
    }

    /// The underlying string, if this value is a string.
    pub fn as_str(&self) -> (r: Option<&str>)
        ensures
            match r {
                Some(s) => self@ == YamlModel::Str(s@),
                None => !(self@ is Str),
            },
    {
        match self {
            Value::String(s) => Some(s.as_str()),
            _ => None,
        }
    }

    /// The underlying integer, if this value is an integer.
    pub fn as_i64(&self) -> (r: Option<i64>)
        ensures
            match r {
                Some(i) => self@ == YamlModel::Int(i as int),
                None => !(self@ is Int),
            },
    {
        match self {
            Value::Int(i) => Some(*i),
            _ => None,
        }
    }

    /// The underlying boolean, if this value is a boolean.
    pub fn as_bool(&self) -> (r: Option<bool>)
        ensures
            match r {
                Some(b) => self@ == YamlModel::Bool(b),
                None => !(self@ is Bool),
            },
    {
        match self {
            Value::Bool(b) => Some(*b),
            _ => None,
        }
    }

    /// Looks up a string key in a mapping; nothing for other values.
    pub fn get(&self, key: &str) -> (r: Option<&Value>)
        ensures
            match self@ {
                YamlModel::Dict(ks, vs) => match first_key_match(ks, YamlModel::Str(key@), 0) {
                    Some(i) => (r matches Some(v) && v@ == vs[i]),
                    None => r is None,
                },
                _ => r is None,
            },
    {
        match self.as_mapping() {
            Some(m) => {
                let k = Value::String(String::from_str(key));
                m.get(&k)
            },
            None => None,
        }
    }
}

// ---------------------------------------------------------------------------
// Scalar quoting
// ---------------------------------------------------------------------------

/// The plain scalars YAML reads as booleans or null.
pub open spec fn is_reserved_word_spec(s: Seq<char>) -> bool {
    s == "true"@ || s == "false"@ || s == "null"@ || s == "yes"@ || s == "no"@ || s == "on"@ || s == "off"@ || s == "True"@ || s == "False"@ || s == "Null"@ || s == "Yes"@ || s == "No"@ || s == "On"@ || s == "Off"@ || s == "TRUE"@ || s == "FALSE"@ || s == "NULL"@ || s == "YES"@ || s == "NO"@ || s == "ON"@ || s == "OFF"@ || s == "~"@
}

/// Decides [`is_reserved_word_spec`].
pub fn is_reserved_word(s: &str) -> (r: bool)
    ensures
        r == is_reserved_word_spec(s@),
{
    if str_eq(s, "true") {
        return true;
    }
    if str_eq(s, "false") {
        return true;
    }
    if str_eq(s, "null") {
        return true;
    }
    if str_eq(s, "yes") {
        return true;
    }
    if str_eq(s, "no") {
        return true;
    }
    if str_eq(s, "on") {
        return true;
    }
    if str_eq(s, "off") {
        return true;
    }
    if str_eq(s, "True") {
        return true;
    }
    if str_eq(s, "False") {
        return true;
    }
    if str_eq(s, "Null") {
        return true;
    }
    if str_eq(s, "Yes") {
        return true;
    }
    if str_eq(s, "No") {
        return true;
    }
    if str_eq(s, "On") {
        return true;
    }
    if str_eq(s, "Off") {
        return true;
    }
    if str_eq(s, "TRUE") {
        return true;
    }
    if str_eq(s, "FALSE") {
        return true;
    }
    if str_eq(s, "NULL") {
        return true;
    }
    if str_eq(s, "YES") {
        return true;
    }
    if str_eq(s, "NO") {
        return true;
    }
    if str_eq(s, "ON") {
        return true;
    }
    if str_eq(s, "OFF") {
        return true;
    }
    if str_eq(s, "~") {
        return true;
    }
    false
}

/// The characters that are special anywhere in a plain YAML scalar.
pub open spec fn is_yaml_special_char_spec(c: char) -> bool {
    c == ':' || c == '#' || c == '[' || c == ']' || c == '{' || c == '}' || c == ',' || c == '&' || c == '*' || c == '!' || c == '|' || c == '>' || c == '\'' || c == '"' || c == '%' || c == '@' || c == '`'
}

/// Decides [`is_yaml_special_char_spec`].
pub fn is_yaml_special_char(c: char) -> (r: bool)
    ensures
        r == is_yaml_special_char_spec(c),
{
    c == ':' || c == '#' || c == '[' || c == ']' || c == '{' || c == '}' || c == ',' || c == '&' || c == '*' || c == '!' || c == '|' || c == '>' || c == '\'' || c == '"' || c == '%' || c == '@' || c == '`'
}

/// Unicode control characters (general category Cc).
pub open spec fn is_cc(c: char) -> bool {
    (c as u32) <= 0x1f || (0x7f <= (c as u32) && (c as u32) <= 0x9f)
}

/// Line breaks, tabs and other control characters.
pub open spec fn is_control_char_spec(c: char) -> bool {
    c == '\n' || c == '\r' || c == '\t' || (is_cc(c) && c != ' ')
}

/// Decides [`is_control_char_spec`].
pub fn is_control_char(c: char) -> (r: bool)
    ensures
        r == is_control_char_spec(c),
{
    let u = c as u32;
    c == '\n' || c == '\r' || c == '\t' || ((u <= 0x1f || (0x7f <= u && u <= 0x9f)) && c != ' ')
}

/// `s` starts with a YAML block indicator: it is a document marker (`---`
/// or `...`), or begins with `-`, `?` or `:` that stands alone or is
/// followed by a space or tab.
pub open spec fn starts_with_indicator_spec(s: Seq<char>) -> bool {
    s == "---"@ || s == "..."@ || (s.len() >= 1 && (s[0] == '-' || s[0] == '?' || s[0] == ':') && (s.len() == 1
        || s[1] == ' ' || s[1] == '\t'))
}

/// Decides [`starts_with_indicator_spec`].
pub fn starts_with_indicator(s: &str) -> (r: bool)
    ensures
        r == starts_with_indicator_spec(s@),
{
    if str_eq(s, "---") || str_eq(s, "...") {
        return true;
    }
    let n = s.unicode_len();
    if n == 0 {
        return false;
    }
    let first = s.get_char(0);
    if !(first == '-' || first == '?' || first == ':') {
        return false;
    }
    if n == 1 {
        return true;
    }
    let next = s.get_char(1);
    next == ' ' || next == '\t'
}

/// Some character of `s` is YAML-special or a control character.
pub open spec fn has_special_char(s: Seq<char>) -> bool {
    exists|i: int| 0 <= i < s.len() && (is_yaml_special_char_spec(#[trigger] s[i]) || is_control_char_spec(s[i]))
}

/// `s` must be written as a double-quoted scalar: it is empty, a reserved
/// word, reads as a number, has white space at either end, starts with a
/// block indicator, or holds a special or control character.
pub open spec fn needs_quoting_spec(s: Seq<char>) -> bool {
    s.len() == 0 || is_reserved_word_spec(s) || yaml_number_spec(s) || is_ws(s[0]) || is_ws(s[s.len() - 1])
        || starts_with_indicator_spec(s) || has_special_char(s)
}

/// Decides [`needs_quoting_spec`].
pub fn needs_quoting(s: &str) -> (r: bool)
    ensures
        r == needs_quoting_spec(s@),
{
    let n = s.unicode_len();
    if n == 0 {
        return true;
    }
    if is_reserved_word(s) {
        return true;
    }
    if parses_as_yaml_number(s) {
        return true;
    }
    if is_ws_exec(s.get_char(0)) || is_ws_exec(s.get_char(n - 1)) {
        return true;
    }
    if starts_with_indicator(s) {
        return true;
    }
    let mut i: usize = 0;
    while i < n
        invariant
            n == s@.len(),
            i <= n,
            forall|j: int| 0 <= j < i ==> !(is_yaml_special_char_spec(#[trigger] s@[j]) || is_control_char_spec(s@[j])),
        decreases n - i,
    {
        let c = s.get_char(i);
        if is_yaml_special_char(c) || is_control_char(c) {
            return true;
        }
        i = i + 1;
    }
    false
}

/// The lower-case hexadecimal digit of `d`.
pub open spec fn hex_digit(d: int) -> char {
    if d < 10 {
        ((d + 48) as u32) as char
    } else {
        ((d + 87) as u32) as char
    }
}

/// How one character is written inside a double-quoted scalar.
///
/// Control characters all lie below U+00A0, so each is written as `\xNN`.
pub open spec fn escape_char(c: char) -> Seq<char> {
    if c == '"' {
        seq!['\\', '"']
    } else if c == '\\' {
        seq!['\\', '\\']
    } else if c == '\n' {
        seq!['\\', 'n']
    } else if c == '\r' {
        seq!['\\', 'r']
    } else if c == '\t' {
        seq!['\\', 't']
    } else if is_cc(c) {
        seq!['\\', 'x', hex_digit(((c as u32) / 16) as int), hex_digit(((c as u32) % 16) as int)]
    } else {
        seq![c]
    }
}

/// The escaped form of `s`, character by character.
pub open spec fn escaped(s: Seq<char>) -> Seq<char>
    decreases s.len(),
{
    if s.len() == 0 {
        Seq::empty()
    } else {
        escaped(s.drop_last()) + escape_char(s.last())
    }
}

/// `s` as a double-quoted scalar.
pub open spec fn quote_double_spec(s: Seq<char>) -> Seq<char> {
    seq!['"'] + escaped(s) + seq!['"']
}

fn hex_digit_exec(d: u32) -> (r: &'static str)
    requires
        d < 16,
    ensures
        r@ == seq![hex_digit(d as int)],
{
    proof {
        reveal_strlit("0");
        reveal_strlit("1");
        reveal_strlit("2");
        reveal_strlit("3");
        reveal_strlit("4");
        reveal_strlit("5");
        reveal_strlit("6");
        reveal_strlit("7");
        reveal_strlit("8");
        reveal_strlit("9");
        reveal_strlit("a");
        reveal_strlit("b");
        reveal_strlit("c");
        reveal_strlit("d");
        reveal_strlit("e");
        reveal_strlit("f");
    }
    let r = if d == 0 {
        "0"
    } else if d == 1 {
        "1"
    } else if d == 2 {
        "2"
    } else if d == 3 {
        "3"
    } else if d == 4 {
        "4"
    } else if d == 5 {
        "5"
    } else if d == 6 {
        "6"
    } else if d == 7 {
        "7"
    } else if d == 8 {
        "8"
    } else if d == 9 {
        "9"
    } else if d == 10 {
        "a"
    } else if d == 11 {
        "b"
    } else if d == 12 {
        "c"
    } else if d == 13 {
        "d"
    } else if d == 14 {
        "e"
    } else {
        "f"
    };
    assert(r@ =~= seq![hex_digit(d as int)]);
    r
}

fn escape_char_exec(s: &str, i: usize) -> (r: String)
    requires
        i < s@.len(),
    ensures
        r@ == escape_char(s@[i as int]),
{
    let c = s.get_char(i);
    proof {
        reveal_strlit("\\\"");
        reveal_strlit("\\\\");
        reveal_strlit("\\n");
        reveal_strlit("\\r");
        reveal_strlit("\\t");
        reveal_strlit("\\x");
    }
    let u = c as u32;
    if c == '"' {
        let r = String::from_str("\\\"");
        assert(r@ =~= escape_char(c));
        r
    } else if c == '\\' {
        let r = String::from_str("\\\\");
        assert(r@ =~= escape_char(c));
        r
    } else if c == '\n' {
        let r = String::from_str("\\n");
        assert(r@ =~= escape_char(c));
        r
    } else if c == '\r' {
        let r = String::from_str("\\r");
        assert(r@ =~= escape_char(c));
        r
    } else if c == '\t' {
        let r = String::from_str("\\t");
        assert(r@ =~= escape_char(c));
        r
    } else if u <= 0x1f || (0x7f <= u && u <= 0x9f) {
        let mut r = String::from_str("\\x");
        r.append(hex_digit_exec(u / 16));
        r.append(hex_digit_exec(u % 16));
        assert(r@ =~= escape_char(c));
        r
    } else {
        let mut r = String::new();
        crate::text::push_char_of(&mut r, s, i);
        assert(r@ =~= escape_char(c));
        r
    }
}

/// Writes `s` as a double-quoted scalar, escaping quotes, backslashes and
/// control characters.
pub fn quote_double(s: &str) -> (r: String)
    ensures
        r@ == quote_double_spec(s@),
{
    proof {
        reveal_strlit("\"");
    }
    let n = s.unicode_len();
    let mut out = String::from_str("\"");
    let mut i: usize = 0;
    while i < n
        invariant
            n == s@.len(),
            i <= n,
            out@ == seq!['"'] + escaped(s@.take(i as int)),
        decreases n - i,
    {
        let e = escape_char_exec(s, i);
        out.append(e.as_str());
        proof {
            assert(s@.take(i + 1).drop_last() =~= s@.take(i as int));
            assert(s@.take(i + 1).last() == s@[i as int]);
            assert(out@ =~= seq!['"'] + escaped(s@.take(i + 1)));
        }
        i = i + 1;
    }
    out.append("\"");
    assert(s@.take(n as int) =~= s@);
    assert(out@ =~= quote_double_spec(s@));
    out
}

/// A string scalar as the emitter writes it: double-quoted when
/// [`needs_quoting_spec`] holds, as is otherwise.
pub open spec fn format_scalar_spec(s: Seq<char>) -> Seq<char> {
    if needs_quoting_spec(s) {
        quote_double_spec(s)
    } else {
        s
    }
}

/// Formats a string scalar value, applying the quote rule.
pub fn format_scalar_value(s: &str) -> (r: String)
    ensures
        r@ == format_scalar_spec(s@),
{
    if needs_quoting(s) {
        quote_double(s)
    } else {
        String::from_str(s)
    }
}

/// Formats a mapping key, with the same quote rule as values.
pub fn format_scalar_key(s: &str) -> (r: String)
    ensures
        r@ == format_scalar_spec(s@),
{
    format_scalar_value(s)
}


// ---------------------------------------------------------------------------
// Emitter
// ---------------------------------------------------------------------------

/// The decimal text of an integer.
pub open spec fn int_text(i: int) -> Seq<char> {
    if i < 0 {
        seq!['-'] + crate::error::decimal((-i) as nat)
    } else {
        crate::error::decimal(i as nat)
    }
}

/// The float bit pattern `b` is finite: not all exponent bits are set.
pub open spec fn is_finite_bits(b: int) -> bool {
    (b / 0x10_0000_0000_0000) % 0x800 != 0x7ff
}

/// A float's text as emitted: `.0` is appended when the printed form would
/// read back as an integer.
pub open spec fn float_text_spec(t: Seq<char>) -> Seq<char> {
    if t.contains('.') || t.contains('e') || t.contains('E') || crate::text::contains_seq(t, "inf"@) || t == "NaN"@ {
        t
    } else {
        t + ".0"@
    }
}

/// A serialization error.
pub open spec fn ser_err(m: Seq<char>) -> YamlErrorModel {
    YamlErrorModel::Serialize(m)
}

/// A scalar, or an empty container in flow form, as written after `key: `
/// or `- `.
pub open spec fn inline_spec(v: YamlModel) -> Result<Seq<char>, YamlErrorModel> {
    match v {
        YamlModel::Null => Ok("null"@),
        YamlModel::Bool(b) => Ok(if b { "true"@ } else { "false"@ }),
        YamlModel::Int(i) => Ok(int_text(i)),
        YamlModel::Float(bits, t) => if !is_finite_bits(bits) {
            Err(ser_err("non-finite float is not supported by the Phase 1 emitter: "@ + t))
        } else {
            Ok(float_text_spec(t))
        },
        YamlModel::Str(s) => Ok(format_scalar_spec(s)),
        YamlModel::List(xs) => if xs.len() == 0 {
            Ok("[]"@)
        } else {
            Err(ser_err("non-empty sequence not allowed in inline position"@))
        },
        YamlModel::Dict(ks, _) => if ks.len() == 0 {
            Ok("{}"@)
        } else {
            Err(ser_err("non-empty mapping not allowed in inline position"@))
        },
    }
}

/// The text of a mapping key: only string keys are supported.
pub open spec fn key_text(k: YamlModel) -> Result<Seq<char>, YamlErrorModel> {
    match k {
        YamlModel::Str(s) => Ok(format_scalar_spec(s)),
        _ => Err(ser_err("non-string mapping key not supported in Phase 1 emitter"@)),
    }
}

/// What follows `key:` for value `v` of an entry indented by `ind`.
pub open spec fn value_part(v: YamlModel, ind: Seq<char>) -> Result<Seq<char>, YamlErrorModel>
    decreases v, 0int,
{
    match v {
        YamlModel::Dict(ks, vs) => if ks.len() > 0 {
            match map_block(ks, vs, ind + "  "@, ks.len() as int) {
                Ok(t) => Ok("\n"@ + t),
                Err(e) => Err(e),
            }
        } else {
            Ok(" {}\n"@)
        },
        YamlModel::List(xs) => if xs.len() > 0 {
            match seq_block(xs, ind + "  "@, xs.len() as int) {
                Ok(t) => Ok("\n"@ + t),
                Err(e) => Err(e),
            }
        } else {
            Ok(" []\n"@)
        },
        _ => match inline_spec(v) {
            Ok(t) => Ok(" "@ + t + "\n"@),
            Err(e) => Err(e),
        },
    }
}

/// One mapping entry (without its leading indentation).
pub open spec fn entry_spec(k: YamlModel, v: YamlModel, ind: Seq<char>) -> Result<Seq<char>, YamlErrorModel>
    decreases v, 1int,
{
    match key_text(k) {
        Err(e) => Err(e),
        Ok(kt) => match value_part(v, ind) {
            Err(e) => Err(e),
            Ok(t) => Ok(kt + ":"@ + t),
        },
    }
}

/// The first `n` entries of a mapping in block style, each indented by `ind`.
pub open spec fn map_block(ks: Seq<YamlModel>, vs: Seq<YamlModel>, ind: Seq<char>, n: int) -> Result<
    Seq<char>,
    YamlErrorModel,
>
    decreases vs, n,
{
    if n <= 0 || n > vs.len() || n > ks.len() {
        Ok(Seq::empty())
    } else {
        match map_block(ks, vs, ind, n - 1) {
            Err(e) => Err(e),
            Ok(a) => match entry_spec(ks[n - 1], vs[n - 1], ind) {
                Err(e) => Err(e),
                Ok(b) => Ok(a + ind + b),
            },
        }
    }
}

/// The first `n` entries of a mapping that is an item of a sequence: the
/// first entry shares the `- ` line, the others are indented by `inner`.
pub open spec fn inline_first(ks: Seq<YamlModel>, vs: Seq<YamlModel>, inner: Seq<char>, n: int) -> Result<
    Seq<char>,
    YamlErrorModel,
>
    decreases vs, n,
{
    if n <= 0 || n > vs.len() || n > ks.len() {
        Ok(Seq::empty())
    } else {
        match inline_first(ks, vs, inner, n - 1) {
            Err(e) => Err(e),
            Ok(a) => match entry_spec(ks[n - 1], vs[n - 1], inner) {
                Err(e) => Err(e),
                Ok(b) => Ok(a + (if n - 1 > 0 { inner } else { Seq::empty() }) + b),
            },
        }
    }
}

/// What follows `-` for item `v` of a sequence indented by `ind`.
pub open spec fn item_part(v: YamlModel, ind: Seq<char>) -> Result<Seq<char>, YamlErrorModel>
    decreases v, 1int,
{
    match v {
        YamlModel::Dict(ks, vs) => if ks.len() > 0 {
            match inline_first(ks, vs, ind + "  "@, ks.len() as int) {
                Ok(t) => Ok(" "@ + t),
                Err(e) => Err(e),
            }
        } else {
            Ok(" {}\n"@)
        },
        YamlModel::List(xs) => if xs.len() > 0 {
            match seq_block(xs, ind + "  "@, xs.len() as int) {
                Ok(t) => Ok("\n"@ + t),
                Err(e) => Err(e),
            }
        } else {
            Ok(" []\n"@)
        },
        _ => match inline_spec(v) {
            Ok(t) => Ok(" "@ + t + "\n"@),
            Err(e) => Err(e),
        },
    }
}

/// The first `n` items of a sequence in block style, each indented by `ind`.
pub open spec fn seq_block(xs: Seq<YamlModel>, ind: Seq<char>, n: int) -> Result<Seq<char>, YamlErrorModel>
    decreases xs, n,
{
    if n <= 0 || n > xs.len() {
        Ok(Seq::empty())
    } else {
        match seq_block(xs, ind, n - 1) {
            Err(e) => Err(e),
            Ok(a) => match item_part(xs[n - 1], ind) {
                Err(e) => Err(e),
                Ok(b) => Ok(a + ind + "-"@ + b),
            },
        }
    }
}

/// The YAML document of a value, before the final line break is ensured.
pub open spec fn doc_spec(v: YamlModel) -> Result<Seq<char>, YamlErrorModel> {
    match v {
        YamlModel::Dict(ks, vs) => if ks.len() > 0 {
            map_block(ks, vs, Seq::empty(), ks.len() as int)
        } else {
            inline_spec(v)
        },
        YamlModel::List(xs) => if xs.len() > 0 {
            seq_block(xs, Seq::empty(), xs.len() as int)
        } else {
            inline_spec(v)
        },
        _ => inline_spec(v),
    }
}

/// The YAML text of a value: its document, ending with a line break.
pub open spec fn emit_spec(v: YamlModel) -> Result<Seq<char>, YamlErrorModel> {
    match doc_spec(v) {
        Err(e) => Err(e),
        Ok(t) => Ok(if t.len() > 0 && t.last() == '\n' { t } else { t.push('\n') }),
    }
}


proof fn lemma_map_block_err(ks: Seq<YamlModel>, vs: Seq<YamlModel>, ind: Seq<char>, n: int, m: int)
    requires
        0 <= n <= m <= ks.len(),
        ks.len() == vs.len(),
        map_block(ks, vs, ind, n) is Err,
    ensures
        map_block(ks, vs, ind, m) == map_block(ks, vs, ind, n),
    decreases m - n,
{
    if m > n {
        lemma_map_block_err(ks, vs, ind, n, m - 1);
    }
}

proof fn lemma_inline_first_err(ks: Seq<YamlModel>, vs: Seq<YamlModel>, ind: Seq<char>, n: int, m: int)
    requires
        0 <= n <= m <= ks.len(),
        ks.len() == vs.len(),
        inline_first(ks, vs, ind, n) is Err,
    ensures
        inline_first(ks, vs, ind, m) == inline_first(ks, vs, ind, n),
    decreases m - n,
{
    if m > n {
        lemma_inline_first_err(ks, vs, ind, n, m - 1);
    }
}

proof fn lemma_seq_block_err(xs: Seq<YamlModel>, ind: Seq<char>, n: int, m: int)
    requires
        0 <= n <= m <= xs.len(),
        seq_block(xs, ind, n) is Err,
    ensures
        seq_block(xs, ind, m) == seq_block(xs, ind, n),
    decreases m - n,
{
    if m > n {
        lemma_seq_block_err(xs, ind, n, m - 1);
    }
}

fn int_text_exec(i: i64) -> (r: String)
    ensures
        r@ == int_text(i as int),
{
    if i < 0 {
        let u: u64 = if i == i64::MIN {
            9223372036854775808u64
        } else {
            (-i) as u64
        };
        let d = crate::error::decimal_text(u);
        let mut r = String::from_str("-");
        proof {
            reveal_strlit("-");
        }
        r.append(d.as_str());
        assert(r@ =~= int_text(i as int));
        r
    } else {
        crate::error::decimal_text(i as u64)
    }
}

fn float_text_exec(t: &str) -> (r: String)
    ensures
        r@ == float_text_spec(t@),
{
    if crate::text::has_char(t, '.') || crate::text::has_char(t, 'e') || crate::text::has_char(t, 'E')
        || crate::text::contains_str(t, "inf") || str_eq(t, "NaN") {
        String::from_str(t)
    } else {
        let mut r = String::from_str(t);
        r.append(".0");
        r
    }
}

fn ser_error(m: &str) -> (r: YamlError)
    ensures
        r@ == ser_err(m@),
{
    YamlError::Serialize(String::from_str(m))
}

fn inline_exec(v: &Value) -> (r: Result<String, YamlError>)
    ensures
        match r {
            Ok(t) => inline_spec(v@) == Ok::<Seq<char>, YamlErrorModel>(t@),
            Err(e) => inline_spec(v@) == Err::<Seq<char>, YamlErrorModel>(e@),
        },
{
    match v {
        Value::Null => Ok(String::from_str("null")),
        Value::Bool(b) => if *b {
            Ok(String::from_str("true"))
        } else {
            Ok(String::from_str("false"))
        },
        Value::Int(i) => Ok(int_text_exec(*i)),
        Value::Float { bits, text } => {
            if (*bits / 0x10_0000_0000_0000) % 0x800 == 0x7ff {
                let mut m = String::from_str("non-finite float is not supported by the Phase 1 emitter: ");
                m.append(text.as_str());
                Err(YamlError::Serialize(m))
            } else {
                Ok(float_text_exec(text.as_str()))
            }
        },
        Value::String(s) => Ok(format_scalar_value(s.as_str())),
        Value::Sequence(xs) => {
            proof {
                lemma_list_view(v);
            }
            if xs.len() == 0 {
                Ok(String::from_str("[]"))
            } else {
                Err(ser_error("non-empty sequence not allowed in inline position"))
            }
        },
        Value::Mapping(m) => {
            proof {
                lemma_dict_view(v);
            }
            if m.entries.len() == 0 {
                Ok(String::from_str("{}"))
            } else {
                Err(ser_error("non-empty mapping not allowed in inline position"))
            }
        },
    }
}

fn key_exec(k: &Value) -> (r: Result<String, YamlError>)
    ensures
        match r {
            Ok(t) => key_text(k@) == Ok::<Seq<char>, YamlErrorModel>(t@),
            Err(e) => key_text(k@) == Err::<Seq<char>, YamlErrorModel>(e@),
        },
{
    match k {
        Value::String(s) => Ok(format_scalar_key(s.as_str())),
        Value::Sequence(_) => {
            proof {
                lemma_list_view(k);
            }
            Err(ser_error("non-string mapping key not supported in Phase 1 emitter"))
        },
        Value::Mapping(_) => {
            proof {
                lemma_dict_view(k);
            }
            Err(ser_error("non-string mapping key not supported in Phase 1 emitter"))
        },
        _ => Err(ser_error("non-string mapping key not supported in Phase 1 emitter")),
    }
}

fn cat3(a: &str, b: &str, c: &str) -> (r: String)
    ensures
        r@ == a@ + b@ + c@,
{
    let mut r = String::from_str(a);
    r.append(b);
    r.append(c);
    r
}

fn value_part_exec(v: &Value, ind: &str) -> (r: Result<String, YamlError>)
    ensures
        match r {
            Ok(t) => value_part(v@, ind@) == Ok::<Seq<char>, YamlErrorModel>(t@),
            Err(e) => value_part(v@, ind@) == Err::<Seq<char>, YamlErrorModel>(e@),
        },
    decreases v, 0int,
{
    match v {
        Value::Mapping(m) => {
            proof {
                lemma_dict_view(v);
            }
            if m.entries.len() > 0 {
                let child = cat3(ind, "  ", "");
                proof {
                    reveal_strlit("");
                    assert(child@ =~= ind@ + "  "@);
                }
                match map_block_exec(m, child.as_str()) {
                    Ok(t) => Ok(cat3("\n", t.as_str(), "")),
                    Err(e) => Err(e),
                }
            } else {
                Ok(String::from_str(" {}\n"))
            }
        },
        Value::Sequence(xs) => {
            proof {
                lemma_list_view(v);
            }
            if xs.len() > 0 {
                let child = cat3(ind, "  ", "");
                proof {
                    reveal_strlit("");
                    assert(child@ =~= ind@ + "  "@);
                }
                match seq_block_exec(xs, child.as_str()) {
                    Ok(t) => Ok(cat3("\n", t.as_str(), "")),
                    Err(e) => Err(e),
                }
            } else {
                Ok(String::from_str(" []\n"))
            }
        },
        _ => match inline_exec(v) {
            Ok(t) => Ok(cat3(" ", t.as_str(), "\n")),
            Err(e) => Err(e),
        },
    }
}

fn entry_exec(k: &Value, v: &Value, ind: &str) -> (r: Result<String, YamlError>)
    ensures
        match r {
            Ok(t) => entry_spec(k@, v@, ind@) == Ok::<Seq<char>, YamlErrorModel>(t@),
            Err(e) => entry_spec(k@, v@, ind@) == Err::<Seq<char>, YamlErrorModel>(e@),
        },
    decreases v, 1int,
{
    let kt = match key_exec(k) {
        Ok(t) => t,
        Err(e) => {
            return Err(e);
        },
    };
    match value_part_exec(v, ind) {
        Ok(t) => Ok(cat3(kt.as_str(), ":", t.as_str())),
        Err(e) => Err(e),
    }
}

fn map_block_exec(m: &Mapping, ind: &str) -> (r: Result<String, YamlError>)
    ensures
        match r {
            Ok(t) => map_block(m@.0, m@.1, ind@, m@.0.len() as int) == Ok::<Seq<char>, YamlErrorModel>(t@),
            Err(e) => map_block(m@.0, m@.1, ind@, m@.0.len() as int) == Err::<Seq<char>, YamlErrorModel>(e@),
        },
    decreases m, 2int,
{
    let ghost ks = m@.0;
    let ghost vs = m@.1;
    let mut out = String::new();
    let mut i: usize = 0;
    while i < m.entries.len()
        invariant
            i <= m.entries@.len(),
            ks == m@.0,
            vs == m@.1,
            ks.len() == m.entries@.len() && vs.len() == m.entries@.len(),
            map_block(ks, vs, ind@, i as int) == Ok::<Seq<char>, YamlErrorModel>(out@),
        decreases m.entries@.len() - i,
    {
        proof {
            assert(decreases_to!(m.entries => m.entries[i as int]));
        }
        assert(ks[i as int] == m.entries@[i as int].0@ && vs[i as int] == m.entries@[i as int].1@) by {
            assert(m.entries[i as int] == m.entries@[i as int]);
        }
        match entry_exec(&m.entries[i].0, &m.entries[i].1, ind) {
            Ok(b) => {
                out.append(ind);
                out.append(b.as_str());
            },
            Err(e) => {
                proof {
                    lemma_map_block_err(ks, vs, ind@, i + 1, ks.len() as int);
                }
                return Err(e);
            },
        }
        i = i + 1;
    }
    Ok(out)
}

fn inline_first_exec(m: &Mapping, inner: &str) -> (r: Result<String, YamlError>)
    ensures
        match r {
            Ok(t) => inline_first(m@.0, m@.1, inner@, m@.0.len() as int) == Ok::<Seq<char>, YamlErrorModel>(t@),
            Err(e) => inline_first(m@.0, m@.1, inner@, m@.0.len() as int) == Err::<Seq<char>, YamlErrorModel>(e@),
        },
    decreases m, 2int,
{
    let ghost ks = m@.0;
    let ghost vs = m@.1;
    let mut out = String::new();
    let mut i: usize = 0;
    while i < m.entries.len()
        invariant
            i <= m.entries@.len(),
            ks == m@.0,
            vs == m@.1,
            ks.len() == m.entries@.len() && vs.len() == m.entries@.len(),
            inline_first(ks, vs, inner@, i as int) == Ok::<Seq<char>, YamlErrorModel>(out@),
        decreases m.entries@.len() - i,
    {
        proof {
            assert(decreases_to!(m.entries => m.entries[i as int]));
        }
        assert(ks[i as int] == m.entries@[i as int].0@ && vs[i as int] == m.entries@[i as int].1@) by {
            assert(m.entries[i as int] == m.entries@[i as int]);
        }
        match entry_exec(&m.entries[i].0, &m.entries[i].1, inner) {
            Ok(b) => {
                let ghost before = out@;
                if i > 0 {
                    out.append(inner);
                }
                out.append(b.as_str());
                assert(out@ =~= before + (if i > 0 { inner@ } else { Seq::<char>::empty() }) + b@);
            },
            Err(e) => {
                proof {
                    lemma_inline_first_err(ks, vs, inner@, i + 1, ks.len() as int);
                }
                return Err(e);
            },
        }
        i = i + 1;
    }
    Ok(out)
}

fn item_part_exec(v: &Value, ind: &str) -> (r: Result<String, YamlError>)
    ensures
        match r {
            Ok(t) => item_part(v@, ind@) == Ok::<Seq<char>, YamlErrorModel>(t@),
            Err(e) => item_part(v@, ind@) == Err::<Seq<char>, YamlErrorModel>(e@),
        },
    decreases v, 1int,
{
    match v {
        Value::Mapping(m) => {
            proof {
                lemma_dict_view(v);
            }
            if m.entries.len() > 0 {
                let child = cat3(ind, "  ", "");
                proof {
                    reveal_strlit("");
                    assert(child@ =~= ind@ + "  "@);
                }
                match inline_first_exec(m, child.as_str()) {
                    Ok(t) => Ok(cat3(" ", t.as_str(), "")),
                    Err(e) => Err(e),
                }
            } else {
                Ok(String::from_str(" {}\n"))
            }
        },
        Value::Sequence(xs) => {
            proof {
                lemma_list_view(v);
            }
            if xs.len() > 0 {
                let child = cat3(ind, "  ", "");
                proof {
                    reveal_strlit("");
                    assert(child@ =~= ind@ + "  "@);
                }
                match seq_block_exec(xs, child.as_str()) {
                    Ok(t) => Ok(cat3("\n", t.as_str(), "")),
                    Err(e) => Err(e),
                }
            } else {
                Ok(String::from_str(" []\n"))
            }
        },
        _ => match inline_exec(v) {
            Ok(t) => Ok(cat3(" ", t.as_str(), "\n")),
            Err(e) => Err(e),
        },
    }
}

fn seq_block_exec(xs: &Vec<Value>, ind: &str) -> (r: Result<String, YamlError>)
    ensures
        match r {
            Ok(t) => seq_block(list_view(xs@), ind@, xs@.len() as int) == Ok::<Seq<char>, YamlErrorModel>(t@),
            Err(e) => seq_block(list_view(xs@), ind@, xs@.len() as int) == Err::<Seq<char>, YamlErrorModel>(e@),
        },
    decreases xs, 2int,
{
    let ghost ms = list_view(xs@);
    let mut out = String::new();
    let mut i: usize = 0;
    while i < xs.len()
        invariant
            i <= xs@.len(),
            ms == list_view(xs@),
            seq_block(ms, ind@, i as int) == Ok::<Seq<char>, YamlErrorModel>(out@),
        decreases xs@.len() - i,
    {
        proof {
            assert(decreases_to!(*xs => xs[i as int]));
        }
        match item_part_exec(&xs[i], ind) {
            Ok(b) => {
                out.append(ind);
                out.append("-");
                out.append(b.as_str());
            },
            Err(e) => {
                proof {
                    lemma_seq_block_err(ms, ind@, i + 1, ms.len() as int);
                }
                return Err(e);
            },
        }
        i = i + 1;
    }
    Ok(out)
}

/// Emits a value as YAML text: two-space indentation, block style for
/// non-empty mappings and sequences, flow `{}` / `[]` for empty ones,
/// quoted scalars where the quote rule asks for it, and a final line break.
/// Non-string mapping keys, non-finite floats and non-empty containers in
/// inline position are refused.
pub fn emit_yaml(value: &Value) -> (r: Result<String, YamlError>)
    ensures
        match r {
            Ok(t) => emit_spec(value@) == Ok::<Seq<char>, YamlErrorModel>(t@),
            Err(e) => emit_spec(value@) == Err::<Seq<char>, YamlErrorModel>(e@),
        },
{
    proof {
        reveal_strlit("");
    }
    let e = "";
    assert(e@ =~= Seq::<char>::empty());
    let doc = match value {
        Value::Mapping(m) => {
            proof {
                lemma_dict_view(value);
            }
            if m.entries.len() > 0 {
                map_block_exec(m, e)
            } else {
                inline_exec(value)
            }
        },
        Value::Sequence(xs) => {
            proof {
                lemma_list_view(value);
            }
            if xs.len() > 0 {
                seq_block_exec(xs, e)
            } else {
                inline_exec(value)
            }
        },
        _ => inline_exec(value),
    };
    match doc {
        Err(err) => Err(err),
        Ok(t) => {
            let n = t.unicode_len();
            if n > 0 && t.as_str().get_char(n - 1) == '\n' {
                Ok(t)
            } else {
                proof {
                    reveal_strlit("\n");
                }
                let ghost t0 = t@;
                let mut out = t;
                out.append("\n");
                assert(out@ =~= t0.push('\n'));
                Ok(out)
            }
        },
    }
}

// ---------------------------------------------------------------------------
// Numbers
// ---------------------------------------------------------------------------

/// A decimal digit.
pub open spec fn is_digit(c: char) -> bool {
    '0' <= c && c <= '9'
}

/// Every character of `s` is a decimal digit.
pub open spec fn all_digits(s: Seq<char>) -> bool {
    forall|i: int| 0 <= i < s.len() ==> is_digit(#[trigger] s[i])
}

/// The value of a decimal digit.
pub open spec fn digit_val(c: char) -> int {
    (c as u32) - 48
}

/// The value of a string of decimal digits.
pub open spec fn dv(s: Seq<char>) -> int
    decreases s.len(),
{
    if s.len() == 0 {
        0
    } else {
        dv(s.drop_last()) * 10 + digit_val(s.last())
    }
}

/// `10^e`.
pub open spec fn pow10(e: int) -> int
    decreases e,
{
    if e <= 0 {
        1
    } else {
        10 * pow10(e - 1)
    }
}

/// `2^1024 - 2^970` in decimal: every decimal value below it rounds to a
/// finite `f64`; it and every value above round to infinity.
pub open spec fn f64_overflow_digits() -> Seq<char> {
    "179769313486231580793728971405303415079934132710037826936173778980444968292764750946649017977587207096330286416692887910946555547851940402630657488671505820681908902000708383676273854845817711531764475730270069855571366959622842914819860834936475292719074168444365510704342711559699508093042880177904174497792"@
}

/// The first position from `i` on where `s` holds `a` or `b`; the length
/// of `s` when there is none.
pub open spec fn first_pos(s: Seq<char>, a: char, b: char, i: int) -> int
    decreases s.len() - i,
{
    if i < 0 || i >= s.len() {
        s.len() as int
    } else if s[i] == a || s[i] == b {
        i
    } else {
        first_pos(s, a, b, i + 1)
    }
}

/// `s` without a leading `+` or `-`.
pub open spec fn unsigned_part(s: Seq<char>) -> Seq<char> {
    if s.len() > 0 && (s[0] == '+' || s[0] == '-') {
        s.skip(1)
    } else {
        s
    }
}

/// The integer digits of a mantissa (before any `.`).
pub open spec fn int_digits(m: Seq<char>) -> Seq<char> {
    m.take(first_pos(m, '.', '.', 0))
}

/// The fraction digits of a mantissa (after the first `.`).
pub open spec fn frac_digits(m: Seq<char>) -> Seq<char> {
    let d = first_pos(m, '.', '.', 0);
    if d < m.len() {
        m.skip(d + 1)
    } else {
        Seq::empty()
    }
}

/// A mantissa: digits with at most one `.`, and at least one digit.
pub open spec fn mantissa_ok(m: Seq<char>) -> bool {
    all_digits(int_digits(m)) && all_digits(frac_digits(m)) && int_digits(m).len() + frac_digits(m).len() > 0
}

/// An exponent after `e`/`E`: an optional sign and at least one digit.
pub open spec fn exponent_ok(x: Seq<char>) -> bool {
    unsigned_part(x).len() > 0 && all_digits(unsigned_part(x))
}

/// The value of an exponent.
pub open spec fn exponent_val(x: Seq<char>) -> int {
    if x.len() > 0 && x[0] == '-' {
        -dv(unsigned_part(x))
    } else {
        dv(unsigned_part(x))
    }
}

/// A decimal floating literal as Rust's `f64` parser reads it
/// (`[+-]? (digits | digits '.' digits? | '.' digits) ([eE] [+-]? digits)?`),
/// as its significant digits and the power of ten they are scaled by.
pub open spec fn float_literal(s: Seq<char>) -> Option<(Seq<char>, int)> {
    let b = unsigned_part(s);
    let e = first_pos(b, 'e', 'E', 0);
    let m = b.take(e);
    if !mantissa_ok(m) {
        None
    } else if e == b.len() {
        Some((int_digits(m) + frac_digits(m), -(frac_digits(m).len() as int)))
    } else if exponent_ok(b.skip(e + 1)) {
        Some((int_digits(m) + frac_digits(m), exponent_val(b.skip(e + 1)) - frac_digits(m).len()))
    } else {
        None
    }
}

/// `dv(d) * 10^e` is below the `f64` overflow bound.
pub open spec fn below_f64_overflow(d: Seq<char>, e: int) -> bool {
    if e >= 0 {
        dv(d) * pow10(e) < dv(f64_overflow_digits())
    } else {
        dv(d) < dv(f64_overflow_digits()) * pow10(-e)
    }
}

/// `s` reads as a finite `f64` (every integer literal does too), or is one
/// of YAML's infinity and not-a-number forms.
pub open spec fn yaml_number_spec(s: Seq<char>) -> bool {
    (float_literal(s) matches Some(p) && below_f64_overflow(p.0, p.1)) || s == ".inf"@ || s == "-.inf"@ || s
        == "+.inf"@ || s == ".nan"@ || s == ".Inf"@ || s == ".NaN"@
}


proof fn lemma_pow10_pos(e: int)
    ensures
        pow10(e) >= 1,
    decreases e,
{
    if e > 0 {
        lemma_pow10_pos(e - 1);
    }
}

proof fn lemma_pow10_add(a: int, b: int)
    requires
        a >= 0,
        b >= 0,
    ensures
        pow10(a + b) == pow10(a) * pow10(b),
    decreases b,
{
    if b > 0 {
        lemma_pow10_add(a, b - 1);
        let x = pow10(a);
        let y = pow10(b - 1);
        assert(pow10(a + b) == 10 * pow10(a + b - 1));
        assert(10 * (x * y) == x * (10 * y)) by (nonlinear_arith);
    }
}

proof fn lemma_pow10_mono(a: int, b: int)
    requires
        0 <= a <= b,
    ensures
        pow10(a) <= pow10(b),
    decreases b,
{
    if b > a {
        lemma_pow10_mono(a, b - 1);
        lemma_pow10_pos(b - 1);
    }
}

proof fn lemma_dv_bounds(s: Seq<char>)
    requires
        all_digits(s),
    ensures
        0 <= dv(s) < pow10(s.len() as int),
        s.len() >= 1 && s[0] != '0' ==> dv(s) >= pow10(s.len() - 1),
    decreases s.len(),
{
    if s.len() > 0 {
        let t = s.drop_last();
        assert(all_digits(t)) by {
            assert forall|i: int| 0 <= i < t.len() implies is_digit(#[trigger] t[i]) by {
                assert(t[i] == s[i]);
            }
        }
        lemma_dv_bounds(t);
        assert(is_digit(s[s.len() - 1]));
        if s.len() >= 2 && s[0] != '0' {
            assert(t[0] == s[0]);
        }
    }
}

proof fn lemma_dv_concat(x: Seq<char>, y: Seq<char>)
    ensures
        dv(x + y) == dv(x) * pow10(y.len() as int) + dv(y),
    decreases y.len(),
{
    if y.len() == 0 {
        assert(x + y =~= x);
    } else {
        let y2 = y.drop_last();
        assert((x + y).drop_last() =~= x + y2);
        assert((x + y).last() == y.last());
        lemma_dv_concat(x, y2);
        let a = dv(x);
        let p = pow10(y2.len() as int);
        let b = dv(y2);
        assert((a * p + b) * 10 == a * (10 * p) + b * 10) by (nonlinear_arith);
    }
}

/// A string of `k` zero digits.
pub open spec fn zeros(k: int) -> Seq<char> {
    Seq::new(if k < 0 { 0 } else { k as nat }, |i: int| '0')
}

proof fn lemma_dv_zeros(k: int)
    ensures
        dv(zeros(k)) == 0,
    decreases k,
{
    if k > 0 {
        assert(zeros(k).drop_last() =~= zeros(k - 1));
        lemma_dv_zeros(k - 1);
    }
}

proof fn lemma_lex(a: Seq<char>, b: Seq<char>, k: int)
    requires
        a.len() == b.len(),
        all_digits(a),
        all_digits(b),
        0 <= k < a.len(),
        a.take(k) == b.take(k),
        (a[k] as u32) < (b[k] as u32),
    ensures
        dv(a) < dv(b),
{
    let r = a.len() - k - 1;
    let ra = a.skip(k + 1);
    let rb = b.skip(k + 1);
    assert(a =~= a.take(k + 1) + ra);
    assert(b =~= b.take(k + 1) + rb);
    lemma_dv_concat(a.take(k + 1), ra);
    lemma_dv_concat(b.take(k + 1), rb);
    assert(a.take(k + 1).drop_last() =~= a.take(k));
    assert(b.take(k + 1).drop_last() =~= b.take(k));
    assert(all_digits(ra)) by {
        assert forall|i: int| 0 <= i < ra.len() implies is_digit(#[trigger] ra[i]) by {
            assert(ra[i] == a[k + 1 + i]);
        }
    }
    assert(all_digits(rb)) by {
        assert forall|i: int| 0 <= i < rb.len() implies is_digit(#[trigger] rb[i]) by {
            assert(rb[i] == b[k + 1 + i]);
        }
    }
    lemma_dv_bounds(ra);
    lemma_dv_bounds(rb);
    lemma_pow10_pos(r);
    assert(is_digit(a[k]) && is_digit(b[k]));
    let p = dv(a.take(k));
    let da = digit_val(a[k]);
    let db = digit_val(b[k]);
    let q = pow10(r);
    assert(dv(a.take(k + 1)) == p * 10 + da);
    assert(dv(b.take(k + 1)) == p * 10 + db);
    assert(da + 1 <= db);
    assert((p * 10 + da) * q + dv(ra) < (p * 10 + db) * q + dv(rb)) by (nonlinear_arith)
        requires
            da + 1 <= db,
            0 <= dv(ra) < q,
            0 <= dv(rb),
            q >= 1,
    ;
}

proof fn lemma_overflow_bounds()
    ensures
        f64_overflow_digits().len() == 309,
        all_digits(f64_overflow_digits()),
        pow10(308) <= dv(f64_overflow_digits()) < pow10(309),
{
    reveal_strlit("179769313486231580793728971405303415079934132710037826936173778980444968292764750946649017977587207096330286416692887910946555547851940402630657488671505820681908902000708383676273854845817711531764475730270069855571366959622842914819860834936475292719074168444365510704342711559699508093042880177904174497792");
    assert(all_digits(f64_overflow_digits()));
    lemma_dv_bounds(f64_overflow_digits());
}

fn find_pos(s: &str, a: char, b: char) -> (r: usize)
    ensures
        r == first_pos(s@, a, b, 0),
        r <= s@.len(),
{
    let n = s.unicode_len();
    let mut i: usize = 0;
    while i < n
        invariant
            n == s@.len(),
            i <= n,
            first_pos(s@, a, b, 0) == first_pos(s@, a, b, i as int),
        decreases n - i,
    {
        let c = s.get_char(i);
        if c == a || c == b {
            return i;
        }
        i = i + 1;
    }
    i
}

fn digits_exec(s: &str) -> (r: bool)
    ensures
        r == all_digits(s@),
{
    let n = s.unicode_len();
    let mut i: usize = 0;
    while i < n
        invariant
            n == s@.len(),
            i <= n,
            forall|j: int| 0 <= j < i ==> is_digit(#[trigger] s@[j]),
        decreases n - i,
    {
        let c = s.get_char(i);
        if !('0' <= c && c <= '9') {
            return false;
        }
        i = i + 1;
    }
    true
}

fn unsigned_exec(s: &str) -> (r: String)
    ensures
        r@ == unsigned_part(s@),
{
    let n = s.unicode_len();
    if n > 0 && (s.get_char(0) == '+' || s.get_char(0) == '-') {
        let r = crate::text::substring(s, 1, n);
        assert(r@ =~= s@.skip(1));
        r
    } else {
        String::from_str(s)
    }
}

/// Saturation bound for exponents: beyond it only the sign matters.
pub const EXP_CAP: u128 = 100_000_000_000_000_000_000;

fn digits_value_sat(s: &str) -> (r: u128)
    requires
        all_digits(s@),
    ensures
        r == if dv(s@) >= EXP_CAP as int { EXP_CAP as int } else { dv(s@) },
{
    let n = s.unicode_len();
    let mut v: u128 = 0;
    let mut i: usize = 0;
    while i < n
        invariant
            n == s@.len(),
            i <= n,
            all_digits(s@),
            v == if dv(s@.take(i as int)) >= EXP_CAP as int { EXP_CAP as int } else { dv(s@.take(i as int)) },
        decreases n - i,
    {
        let c = s.get_char(i);
        assert(is_digit(s@[i as int]));
        let d = (c as u32 - 48) as u128;
        proof {
            assert(s@.take(i + 1).drop_last() =~= s@.take(i as int));
            assert(s@.take(i + 1).last() == c);
            lemma_dv_bounds(s@.take(i as int));
            assert(all_digits(s@.take(i as int))) by {
                assert forall|j: int| 0 <= j < i implies is_digit(#[trigger] s@.take(i as int)[j]) by {
                    assert(s@.take(i as int)[j] == s@[j]);
                }
            }
            lemma_dv_bounds(s@.take(i as int));
        }
        if v >= EXP_CAP {
            v = EXP_CAP;
        } else {
            let w = v * 10 + d;
            if w >= EXP_CAP {
                v = EXP_CAP;
            } else {
                v = w;
            }
        }
        i = i + 1;
    }
    assert(s@.take(n as int) =~= s@);
    v
}

fn overflow_digit(k: usize) -> (r: char)
    requires
        k < 309,
    ensures
        r == f64_overflow_digits()[k as int],
{
    proof {
        reveal_strlit("179769313486231580793728971405303415079934132710037826936173778980444968292764750946649017977587207096330286416692887910946555547851940402630657488671505820681908902000708383676273854845817711531764475730270069855571366959622842914819860834936475292719074168444365510704342711559699508093042880177904174497792");
    }
    let t = "179769313486231580793728971405303415079934132710037826936173778980444968292764750946649017977587207096330286416692887910946555547851940402630657488671505820681908902000708383676273854845817711531764475730270069855571366959622842914819860834936475292719074168444365510704342711559699508093042880177904174497792";
    t.get_char(k)
}

/// Decides [`below_f64_overflow`] for digits `d` scaled by `10^e`, with `e`
/// in a range no decimal literal's exponent can leave.
#[verifier::spinoff_prover]
#[verifier::rlimit(40)]
fn below_exec(d: &str, e: i128) -> (r: bool)
    requires
        all_digits(d@),
        -(EXP_CAP as int) * 4 <= e <= (EXP_CAP as int) * 4,
    ensures
        r == below_f64_overflow(d@, e as int),
{
    let len = d.unicode_len();
    let mut z: usize = 0;
    while z < len && d.get_char(z) == '0'
        invariant
            len == d@.len(),
            z <= len,
            forall|j: int| 0 <= j < z ==> #[trigger] d@[j] == '0',
        decreases len - z,
    {
        z = z + 1;
    }
    let ghost sig = d@.skip(z as int);
    proof {
        assert(d@ =~= d@.take(z as int) + sig);
        lemma_dv_concat(d@.take(z as int), sig);
        assert(d@.take(z as int) =~= zeros(z as int));
        lemma_dv_zeros(z as int);
        assert(all_digits(sig)) by {
            assert forall|i: int| 0 <= i < sig.len() implies is_digit(#[trigger] sig[i]) by {
                assert(sig[i] == d@[z + i]);
            }
        }
        lemma_dv_bounds(sig);
        lemma_overflow_bounds();
        lemma_pow10_pos(e as int);
        lemma_pow10_pos(-e as int);
    }
    let n = len - z;
    let ghost tdv = dv(f64_overflow_digits());
    if n == 0 {
        proof {
            assert(sig.len() == 0);
            assert(dv(d@) == 0);
            if e < 0 {
                assert(tdv * pow10(-e as int) >= 1) by (nonlinear_arith)
                    requires
                        tdv >= 1,
                        pow10(-e as int) >= 1,
                ;
            }
        }
        return true;
    }
    assert(d@[z as int] != '0');
    let m: i128 = (n as i128) + e;
    if m <= 308 {
        proof {
            lemma_below_small(sig, e as int);
            lemma_below_depends_on_value(d@, sig, e as int);
        }
        return true;
    }
    if m >= 310 {
        proof {
            assert(sig[0] == d@[z as int]);
            lemma_above_large(sig, e as int);
            lemma_below_depends_on_value(d@, sig, e as int);
        }
        return false;
    }
    let total: usize = if n > 309 { n } else { 309 };
    let mut k: usize = 0;
    while k < total
        invariant
            len == d@.len(),
            z < len,
            n == len - z,
            n <= total,
            309 <= total,
            k <= total,
            sig == d@.skip(z as int),
            all_digits(sig),
            dv(d@) == dv(sig),
            sig.len() == n,
            f64_overflow_digits().len() == 309,
            total == if n > 309 { n } else { 309 },
            n as int + e == 309,
            forall|j: int| 0 <= j < k ==> #[trigger] padded(sig, total as int)[j] == padded(f64_overflow_digits(), total as int)[j],
        decreases total - k,
    {
        let x = if k < n { d.get_char(z + k) } else { '0' };
        let y = if k < 309 { overflow_digit(k) } else { '0' };
        assert(x == padded(sig, total as int)[k as int]);
        assert(y == padded(f64_overflow_digits(), total as int)[k as int]);
        if x != y {
            let less = (x as u32) < (y as u32);
            proof {
                lemma_mid_compare(sig, e as int, total as int, k as int);
                lemma_below_depends_on_value(d@, sig, e as int);
            }
            return less;
        }
        k = k + 1;
    }
    proof {
        lemma_mid_equal(sig, e as int, total as int);
        lemma_below_depends_on_value(d@, sig, e as int);
    }
    false
}

/// `s` followed by zeros up to length `total`.
pub open spec fn padded(s: Seq<char>, total: int) -> Seq<char> {
    s + zeros(total - s.len())
}

proof fn lemma_all_digits_padded(s: Seq<char>, total: int)
    requires
        all_digits(s),
    ensures
        all_digits(padded(s, total)),
{
    assert forall|i: int| 0 <= i < padded(s, total).len() implies is_digit(#[trigger] padded(s, total)[i]) by {
        if i < s.len() {
            assert(padded(s, total)[i] == s[i]);
        } else {
            assert(padded(s, total)[i] == zeros(total - s.len())[i - s.len()]);
        }
    }
}

proof fn lemma_dv_padded(s: Seq<char>, total: int)
    requires
        total >= s.len(),
    ensures
        dv(padded(s, total)) == dv(s) * pow10(total - s.len()),
{
    lemma_dv_concat(s, zeros(total - s.len()));
    lemma_dv_zeros(total - s.len());
}

proof fn lemma_below_depends_on_value(a: Seq<char>, b: Seq<char>, e: int)
    requires
        dv(a) == dv(b),
    ensures
        below_f64_overflow(a, e) == below_f64_overflow(b, e),
{
}

proof fn lemma_below_small(sig: Seq<char>, e: int)
    requires
        all_digits(sig),
        sig.len() + e <= 308,
    ensures
        below_f64_overflow(sig, e),
{
    let n = sig.len() as int;
    let t = dv(f64_overflow_digits());
    lemma_dv_bounds(sig);
    lemma_overflow_bounds();
    if e >= 0 {
        lemma_pow10_add(n, e);
        lemma_pow10_mono(n + e, 308);
        lemma_pow10_pos(e);
        assert(dv(sig) * pow10(e) < pow10(n) * pow10(e)) by (nonlinear_arith)
            requires
                dv(sig) < pow10(n),
                pow10(e) >= 1,
        ;
    } else {
        lemma_pow10_pos(-e);
        if n + e < 0 {
            lemma_pow10_mono(n, -e);
            assert(pow10(-e) <= t * pow10(-e)) by (nonlinear_arith)
                requires
                    t >= 1,
                    pow10(-e) >= 1,
            ;
        } else {
            lemma_pow10_add(n + e, -e);
            lemma_pow10_mono(n + e, 308);
            assert(pow10(n + e) * pow10(-e) <= t * pow10(-e)) by (nonlinear_arith)
                requires
                    pow10(n + e) <= t,
                    pow10(-e) >= 1,
            ;
        }
    }
}

proof fn lemma_above_large(sig: Seq<char>, e: int)
    requires
        all_digits(sig),
        sig.len() >= 1,
        sig[0] != '0',
        sig.len() + e >= 310,
    ensures
        !below_f64_overflow(sig, e),
{
    let n = sig.len() as int;
    let t = dv(f64_overflow_digits());
    lemma_dv_bounds(sig);
    lemma_overflow_bounds();
    if e >= 0 {
        lemma_pow10_add(n - 1, e);
        lemma_pow10_mono(309, n - 1 + e);
        lemma_pow10_pos(e);
        assert(dv(sig) * pow10(e) >= pow10(n - 1) * pow10(e)) by (nonlinear_arith)
            requires
                dv(sig) >= pow10(n - 1),
                pow10(e) >= 1,
        ;
    } else {
        lemma_pow10_pos(-e);
        lemma_pow10_add(n - 1 + e, -e);
        lemma_pow10_mono(309, n - 1 + e);
        assert(t * pow10(-e) < pow10(n - 1 + e) * pow10(-e)) by (nonlinear_arith)
            requires
                t < pow10(309),
                pow10(309) <= pow10(n - 1 + e),
                pow10(-e) >= 1,
        ;
    }
}

proof fn lemma_mid_value(sig: Seq<char>, e: int, total: int)
    requires
        all_digits(sig),
        sig.len() + e == 309,
        total == if sig.len() > 309 { sig.len() as int } else { 309 },
    ensures
        below_f64_overflow(sig, e) == (dv(padded(sig, total)) < dv(padded(f64_overflow_digits(), total))),
{
    lemma_overflow_bounds();
    lemma_dv_padded(sig, total);
    lemma_dv_padded(f64_overflow_digits(), total);
}

proof fn lemma_mid_compare(sig: Seq<char>, e: int, total: int, k: int)
    requires
        all_digits(sig),
        sig.len() + e == 309,
        total == if sig.len() > 309 { sig.len() as int } else { 309 },
        0 <= k < total,
        forall|j: int| 0 <= j < k ==> #[trigger] padded(sig, total)[j] == padded(f64_overflow_digits(), total)[j],
        padded(sig, total)[k] != padded(f64_overflow_digits(), total)[k],
    ensures
        below_f64_overflow(sig, e) == ((padded(sig, total)[k] as u32) < (padded(f64_overflow_digits(), total)[k] as u32)),
{
    lemma_overflow_bounds();
    lemma_mid_value(sig, e, total);
    let x = padded(sig, total);
    let y = padded(f64_overflow_digits(), total);
    lemma_all_digits_padded(sig, total);
    lemma_all_digits_padded(f64_overflow_digits(), total);
    assert(x.take(k) =~= y.take(k));
    if (x[k] as u32) < (y[k] as u32) {
        lemma_lex(x, y, k);
    } else {
        lemma_lex(y, x, k);
    }
}

proof fn lemma_mid_equal(sig: Seq<char>, e: int, total: int)
    requires
        all_digits(sig),
        sig.len() + e == 309,
        total == if sig.len() > 309 { sig.len() as int } else { 309 },
        forall|j: int| 0 <= j < total ==> #[trigger] padded(sig, total)[j] == padded(f64_overflow_digits(), total)[j],
    ensures
        !below_f64_overflow(sig, e),
{
    lemma_overflow_bounds();
    lemma_mid_value(sig, e, total);
    assert(padded(sig, total) =~= padded(f64_overflow_digits(), total));
}

proof fn lemma_dv_nonzero(d: Seq<char>, z: int)
    requires
        all_digits(d),
        0 <= z < d.len(),
        d[z] != '0',
        forall|j: int| 0 <= j < z ==> #[trigger] d[j] == '0',
    ensures
        dv(d) >= 1,
{
    let sig = d.skip(z);
    assert(d =~= d.take(z) + sig);
    lemma_dv_concat(d.take(z), sig);
    assert(d.take(z) =~= zeros(z));
    lemma_dv_zeros(z);
    assert(all_digits(sig)) by {
        assert forall|i: int| 0 <= i < sig.len() implies is_digit(#[trigger] sig[i]) by {
            assert(sig[i] == d[z + i]);
        }
    }
    assert(sig[0] == d[z]);
    lemma_dv_bounds(sig);
    lemma_pow10_pos(sig.len() - 1);
    lemma_pow10_pos(0);
}

/// Decides [`below_f64_overflow`] for digits `d` scaled by an exponent
/// whose magnitude is at least the saturation bound.
fn below_with_big_exponent(d: &str, neg: bool, ghost_e: Ghost<int>) -> (r: bool)
    requires
        all_digits(d@),
        neg ==> ghost_e@ <= -(EXP_CAP as int) + usize::MAX as int,
        neg ==> ghost_e@ <= -(d@.len() as int) - 1,
        !neg ==> ghost_e@ >= 310,
    ensures
        r == below_f64_overflow(d@, ghost_e@),
{
    let ghost e = ghost_e@;
    proof {
        lemma_dv_bounds(d@);
        lemma_overflow_bounds();
    }
    if neg {
        proof {
            lemma_pow10_mono(d@.len() as int, -e);
            lemma_pow10_pos(-e);
            let t = dv(f64_overflow_digits());
            assert(pow10(-e) <= t * pow10(-e)) by (nonlinear_arith)
                requires
                    t >= 1,
                    pow10(-e) >= 1,
            ;
        }
        return true;
    }
    let len = d.unicode_len();
    let mut z: usize = 0;
    while z < len && d.get_char(z) == '0'
        invariant
            len == d@.len(),
            z <= len,
            forall|j: int| 0 <= j < z ==> #[trigger] d@[j] == '0',
        decreases len - z,
    {
        z = z + 1;
    }
    if z == len {
        proof {
            assert(d@ =~= zeros(len as int));
            lemma_dv_zeros(len as int);
            lemma_pow10_pos(308);
            assert(dv(d@) * pow10(e) == 0);
        }
        true
    } else {
        proof {
            lemma_dv_nonzero(d@, z as int);
            lemma_pow10_mono(309, e);
            lemma_pow10_pos(e);
            assert(dv(d@) * pow10(e) >= pow10(e)) by (nonlinear_arith)
                requires
                    dv(d@) >= 1,
                    pow10(e) >= 1,
            ;
        }
        false
    }
}

/// Decides whether a string reads as a number: a finite `f64` literal, or
/// one of YAML's infinity and not-a-number forms.
pub fn parses_as_yaml_number(s: &str) -> (r: bool)
    ensures
        r == yaml_number_spec(s@),
{
    if str_eq(s, ".inf") || str_eq(s, "-.inf") || str_eq(s, "+.inf") || str_eq(s, ".nan") || str_eq(s, ".Inf")
        || str_eq(s, ".NaN") {
        return true;
    }
    let b = unsigned_exec(s);
    let bl = b.unicode_len();
    let e = find_pos(b.as_str(), 'e', 'E');
    let m = crate::text::substring(b.as_str(), 0, e);
    assert(m@ =~= b@.take(e as int));
    let ml = m.unicode_len();
    let d = find_pos(m.as_str(), '.', '.');
    let ip = crate::text::substring(m.as_str(), 0, d);
    assert(ip@ =~= int_digits(m@));
    let fp = if d < ml {
        let f = crate::text::substring(m.as_str(), d + 1, ml);
        assert(f@ =~= frac_digits(m@));
        f
    } else {
        let f = String::new();
        assert(f@ =~= frac_digits(m@));
        f
    };
    if !(digits_exec(ip.as_str()) && digits_exec(fp.as_str()) && (ip.unicode_len() > 0 || fp.unicode_len() > 0)) {
        return false;
    }
    let mut digits = String::from_str(ip.as_str());
    digits.append(fp.as_str());
    let frac = fp.unicode_len();
    proof {
        assert(all_digits(digits@)) by {
            assert forall|i: int| 0 <= i < digits@.len() implies is_digit(#[trigger] digits@[i]) by {
                if i < ip@.len() {
                    assert(digits@[i] == ip@[i]);
                } else {
                    assert(digits@[i] == fp@[i - ip@.len()]);
                }
            }
        }
    }
    if e == bl {
        assert(float_literal(s@) == Some((digits@, -(frac as int))));
        return below_exec(digits.as_str(), -(frac as i128));
    }
    let x = crate::text::substring(b.as_str(), e + 1, bl);
    assert(x@ =~= b@.skip(e + 1));
    let u = unsigned_exec(x.as_str());
    if !(u.unicode_len() > 0 && digits_exec(u.as_str())) {
        return false;
    }
    let neg = x.unicode_len() > 0 && x.as_str().get_char(0) == '-';
    let ev = digits_value_sat(u.as_str());
    let ghost exp = exponent_val(x@) - frac;
    assert(float_literal(s@) == Some((digits@, exp)));
    if ev >= EXP_CAP {
        return below_with_big_exponent(digits.as_str(), neg, Ghost(exp));
    }
    let ev_i: i128 = ev as i128;
    let signed: i128 = if neg {
        -ev_i
    } else {
        ev_i
    };
    below_exec(digits.as_str(), signed - (frac as i128))
}
} // verus!
