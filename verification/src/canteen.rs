//! Weighted random selection of a canteen.
//!
//! A `CanteenPicker` owns a non-empty list of canteens together with the
//! ascending cumulative sums of their weights. A selection draws an integer
//! uniformly from `[1, total_weight]` and returns the canteen at the first
//! cumulative sum that reaches the draw, so each canteen is chosen with
//! probability `weight / total_weight`.

use vstd::prelude::*;
use vstd::string::*;
use rand::Rng;

use crate::decimal::{parse_u64, spec_parse_u64};

verus! {

/// Error occurred when loading canteens list from a file.
#[derive(Debug)]
pub enum LoadCanteensError {
    /// The file could not be read; the reading caller fills in the message.
    Io(String),
    /// A line of the file does not follow the `<name>,<weight>` format; the
    /// message names the offending text.
    Format(String),
    /// The file holds no canteens at all.
    NoCanteens,
}

/// The position of the first occurrence of `c` in `s`, or the length of `s`
/// if `c` does not occur.
pub open spec fn first_index_of(s: Seq<char>, c: char) -> nat
    decreases s.len(),
{
    if s.len() == 0 {
        0
    } else if s[0] == c {
        0
    } else {
        1 + first_index_of(s.drop_first(), c)
    }
}

/// How many times `c` occurs in `s`.
pub open spec fn count_char(s: Seq<char>, c: char) -> nat
    decreases s.len(),
{
    if s.len() == 0 {
        0
    } else {
        count_char(s.drop_last(), c) + if s.last() == c {
            1nat
        } else {
            0nat
        }
    }
}

/// A line with one trailing carriage return removed, as a line of a file
/// with CRLF line endings reads.
pub open spec fn strip_cr(l: Seq<char>) -> Seq<char> {
    if l.len() > 0 && l.last() == '\r' {
        l.drop_last()
    } else {
        l
    }
}

/// The name field of a canteen line: what stands before its first comma.
pub open spec fn line_name(l: Seq<char>) -> Seq<char>
    recommends
        count_char(l, ',') == 1,
{
    l.subrange(0, first_index_of(l, ',') as int)
}

/// The weight field of a canteen line: what stands after its first comma.
pub open spec fn line_weight_text(l: Seq<char>) -> Seq<char>
    recommends
        count_char(l, ',') == 1,
{
    l.subrange(first_index_of(l, ',') as int + 1, l.len() as int)
}

/// What the canteens-file grammar assigns to a text: each line must read
/// `<name>,<weight>`, split at its single comma, with a decimal 64-bit
/// weight; lines end at `\n`, with one trailing `\r` per line ignored, and a
/// final line ending is optional. The first offending line decides the error.
pub enum ParsedCanteens {
    /// Every line is valid: the `(name, weight)` pairs, in file order.
    Parsed(Seq<(Seq<char>, u64)>),
    /// The first invalid line does not consist of exactly two
    /// comma-separated fields; its text.
    BadFormat(Seq<char>),
    /// The first invalid line's weight field is no decimal 64-bit number;
    /// that field's text.
    BadWeight(Seq<char>),
}

/// Parse a canteens-file text, line by line, first offending line first.
pub open spec fn spec_parse_canteens(s: Seq<char>) -> ParsedCanteens
    decreases s.len(),
{
    if s.len() == 0 {
        ParsedCanteens::Parsed(Seq::empty())
    } else {
        let nl = first_index_of(s, '\n');
        let head = if nl >= s.len() {
            s
        } else {
            s.subrange(0, nl as int)
        };
        let line = strip_cr(head);
        let tail = if nl >= s.len() {
            Seq::<char>::empty()
        } else {
            s.subrange(nl as int + 1, s.len() as int)
        };
        if count_char(line, ',') != 1 {
            ParsedCanteens::BadFormat(line)
        } else {
            match spec_parse_u64(line_weight_text(line)) {
                None => ParsedCanteens::BadWeight(line_weight_text(line)),
                Some(w) => match spec_parse_canteens(tail) {
                    ParsedCanteens::Parsed(rest) => ParsedCanteens::Parsed(
                        seq![(line_name(line), w)] + rest,
                    ),
                    bad => bad,
                },
            }
        }
    }
}

/// The `(name, weight)` pairs a canteens list holds, in order.
pub open spec fn canteens_view(cs: Seq<Canteen>) -> Seq<(Seq<char>, u64)> {
    cs.map_values(|c: Canteen| (c.name@, c.weight))
}

/// A scan that found no earlier occurrence pins the first occurrence down.
proof fn lemma_first_index_is(s: Seq<char>, c: char, k: int)
    requires
        0 <= k <= s.len(),
        forall|j: int| 0 <= j < k ==> s[j] != c,
        k < s.len() ==> s[k] == c,
    ensures
        first_index_of(s, c) == k,
    decreases s.len(),
{
    if s.len() > 0 {
        if s[0] == c {
            assert(k == 0);
        } else {
            let rest = s.drop_first();
            assert forall|j: int| 0 <= j < k - 1 implies rest[j] != c by {
                assert(rest[j] == s[j + 1]);
            }
            assert(k - 1 < rest.len() ==> rest[k - 1] == c);
            lemma_first_index_is(rest, c, k - 1);
        }
    }
}

/// A character that occurs nowhere in a string is counted zero times.
proof fn lemma_count_char_zero(s: Seq<char>, c: char)
    requires
        forall|j: int| 0 <= j < s.len() ==> s[j] != c,
    ensures
        count_char(s, c) == 0,
    decreases s.len(),
{
    if s.len() > 0 {
        lemma_count_char_zero(s.drop_last(), c);
    }
}

/// Extending a prefix by one character counts that character.
proof fn lemma_count_char_snoc(s: Seq<char>, c: char, i: int)
    requires
        0 <= i < s.len(),
    ensures
        count_char(s.subrange(0, i + 1), c) == count_char(s.subrange(0, i), c) + if s[i] == c {
            1int
        } else {
            0int
        },
{
    let t = s.subrange(0, i + 1);
    assert(t.drop_last() =~= s.subrange(0, i));
    assert(t.last() == s[i]);
}

/// The position of the first occurrence of `c` in `s`, or the length of `s`
/// if `c` does not occur.
fn find_char(s: &str, c: char) -> (r: usize)
    ensures
        r as nat == first_index_of(s@, c),
        r <= s@.len(),
        r < s@.len() ==> s@[r as int] == c,
        forall|j: int| 0 <= j < r ==> s@[j] != c,
{
    let len = s.unicode_len();
    let mut i: usize = 0;
    while i < len
        invariant
            0 <= i <= len,
            len == s@.len(),
            forall|j: int| 0 <= j < i ==> s@[j] != c,
        decreases len - i,
    {
        if s.get_char(i) == c {
            proof {
                lemma_first_index_is(s@, c, i as int);
            }
            return i;
        }
        i = i + 1;
    }
    proof {
        lemma_first_index_is(s@, c, len as int);
    }
    len
}

/// How many times `c` occurs in `s`.
fn count_char_in(s: &str, c: char) -> (r: usize)
    ensures
        r as nat == count_char(s@, c),
{
    let len = s.unicode_len();
    let mut count: usize = 0;
    let mut i: usize = 0;
    while i < len
        invariant
            0 <= i <= len,
            len == s@.len(),
            count <= i,
            count as nat == count_char(s@.subrange(0, i as int), c),
        decreases len - i,
    {
        proof {
            lemma_count_char_snoc(s@, c, i as int);
        }
        if s.get_char(i) == c {
            count = count + 1;
        }
        i = i + 1;
    }
    proof {
        assert(s@.subrange(0, len as int) =~= s@);
    }
    count
}

/// Parse one line of a canteens file: the name before the line's single
/// comma, the decimal weight after it.
fn parse_line(line: &str) -> (r: Result<Canteen, LoadCanteensError>)
    ensures
        ({
            let l = line@;
            if count_char(l, ',') != 1 {
                r matches Err(LoadCanteensError::Format(msg)) && msg@ == "invalid format: \""@ + l
                    + "\""@
            } else if spec_parse_u64(line_weight_text(l)) is None {
                r matches Err(LoadCanteensError::Format(msg)) && msg@
                    == "invalid canteen weight: \""@ + line_weight_text(l) + "\""@
            } else {
                r matches Ok(c) && c.name@ == line_name(l) && Some(c.weight) == spec_parse_u64(
                    line_weight_text(l),
                )
            }
        }),
{
    let count = count_char_in(line, ',');
    if count != 1 {
        let mut msg = String::from_str("invalid format: \"");
        msg.append(line);
        msg.append("\"");
        return Err(LoadCanteensError::Format(msg));
    }
    let comma = find_char(line, ',');
    proof {
        if comma as nat == line@.len() {
            lemma_count_char_zero(line@, ',');
        }
    }
    let len = line.unicode_len();
    let weight_text = line.substring_char(comma + 1, len);
    match parse_u64(weight_text) {
        Some(weight) => {
            let name_text = line.substring_char(0, comma);
            Ok(Canteen { name: String::from_str(name_text), weight })
        },
        None => {
            let mut msg = String::from_str("invalid canteen weight: \"");
            msg.append(weight_text);
            msg.append("\"");
            Err(LoadCanteensError::Format(msg))
        },
    }
}

/// Parse the lines of a canteens-file text that may hold no canteens yet.
fn parse_canteens_rest(content: &str) -> (r: Result<Vec<Canteen>, LoadCanteensError>)
    ensures
        ({
            match spec_parse_canteens(content@) {
                ParsedCanteens::Parsed(items) => r matches Ok(v) && canteens_view(v@) == items,
                ParsedCanteens::BadFormat(l) => r matches Err(LoadCanteensError::Format(msg))
                    && msg@ == "invalid format: \""@ + l + "\""@,
                ParsedCanteens::BadWeight(w) => r matches Err(LoadCanteensError::Format(msg))
                    && msg@ == "invalid canteen weight: \""@ + w + "\""@,
            }
        }),
    decreases content@.len(),
{
    let len = content.unicode_len();
    if len == 0 {
        proof {
            assert(canteens_view(Seq::<Canteen>::empty()) =~= Seq::<(Seq<char>, u64)>::empty());
        }
        return Ok(Vec::new());
    }
    let nl = find_char(content, '\n');
    let head_end = if nl < len {
        nl
    } else {
        len
    };
    let line_end = if head_end > 0 && content.get_char(head_end - 1) == '\r' {
        head_end - 1
    } else {
        head_end
    };
    let line = content.substring_char(0, line_end);
    proof {
        let s = content@;
        let head = if nl as nat >= s.len() {
            s
        } else {
            s.subrange(0, nl as int)
        };
        assert(head =~= s.subrange(0, head_end as int));
        if head_end > 0 && s[head_end - 1] == '\r' {
            assert(head.len() > 0 && head.last() == '\r');
            assert(line@ =~= head.drop_last());
        } else {
            assert(line@ =~= head);
        }
        assert(line@ == strip_cr(head));
    }
    let canteen = match parse_line(line) {
        Ok(c) => c,
        Err(e) => {
            return Err(e);
        },
    };
    if nl == len {
        let mut v: Vec<Canteen> = Vec::new();
        v.push(canteen);
        proof {
            assert(spec_parse_canteens(Seq::<char>::empty()) == ParsedCanteens::Parsed(
                Seq::<(Seq<char>, u64)>::empty(),
            ));
            let items = match spec_parse_canteens(content@) {
                ParsedCanteens::Parsed(items) => items,
                _ => Seq::empty(),
            };
            assert(v@[0] == canteen);
            assert(canteens_view(v@)[0] == (canteen.name@, canteen.weight));
            assert(canteens_view(v@) =~= items);
        }
        return Ok(v);
    }
    let tail = content.substring_char(nl + 1, len);
    let ghost rest_parse = spec_parse_canteens(tail@);
    let mut v = match parse_canteens_rest(tail) {
        Ok(v) => v,
        Err(e) => {
            return Err(e);
        },
    };
    let ghost oldv = v@;
    v.insert(0, canteen);
    proof {
        let items = match spec_parse_canteens(content@) {
            ParsedCanteens::Parsed(items) => items,
            _ => Seq::empty(),
        };
        if spec_parse_canteens(content@) is Parsed {
            assert(v@[0] == canteen);
            assert(canteens_view(v@)[0] == (canteen.name@, canteen.weight));
            assert forall|k: int| 1 <= k < v@.len() implies #[trigger] canteens_view(v@)[k]
                == canteens_view(oldv)[k - 1] by {
                assert(v@[k] == oldv[k - 1]);
                assert(canteens_view(oldv)[k - 1] == (oldv[k - 1].name@, oldv[k - 1].weight));
            }
            assert(canteens_view(v@) =~= items);
        }
    }
    Ok(v)
}

/// Parse a canteens list from the text of a canteens file.
///
/// Each line of the file content should be in the following form:
/// `<name>,<weight>` where `<name>` is the name of a canteen and `<weight>`
/// is the weight of the canteen. A text whose every line is valid but that
/// holds no line at all has no canteens to serve, which is an error of its
/// own.
pub fn parse_canteens(content: &str) -> (r: Result<Vec<Canteen>, LoadCanteensError>)
    ensures
        ({
            match spec_parse_canteens(content@) {
                ParsedCanteens::Parsed(items) => if items.len() == 0 {
                    r matches Err(LoadCanteensError::NoCanteens)
                } else {
                    r matches Ok(v) && canteens_view(v@) == items
                },
                ParsedCanteens::BadFormat(l) => r matches Err(LoadCanteensError::Format(msg))
                    && msg@ == "invalid format: \""@ + l + "\""@,
                ParsedCanteens::BadWeight(w) => r matches Err(LoadCanteensError::Format(msg))
                    && msg@ == "invalid canteen weight: \""@ + w + "\""@,
            }
        }),
{
    match parse_canteens_rest(content) {
        Ok(v) => {
            if v.is_empty() {
                Err(LoadCanteensError::NoCanteens)
            } else {
                Ok(v)
            }
        },
        Err(e) => Err(e),
    }
}

/// A canteen.
pub struct Canteen {
    /// Name of the canteen.
    pub name: String,
    /// Weight of the canteen.
    ///
    /// The higher the weight is, the more likely the canteen is chosen.
    /// A canteen served by a picker always has weight at least 1.
    pub weight: u64,
}

/// The weights of the canteens, in catalog order.
pub open spec fn weights_of(cs: Seq<Canteen>) -> Seq<u64> {
    cs.map_values(|c: Canteen| c.weight)
}

/// The sum of the first `n` weights.
pub open spec fn prefix_weight(ws: Seq<u64>, n: int) -> int
    recommends
        0 <= n <= ws.len(),
    decreases n,
{
    if n <= 0 {
        0
    } else {
        prefix_weight(ws, n - 1) + ws[n - 1]
    }
}

/// Every weight in the list is at least 1.
pub open spec fn all_weights_positive(ws: Seq<u64>) -> bool {
    forall|i: int| 0 <= i < ws.len() ==> #[trigger] ws[i] >= 1
}

/// Prefix weights grow by at least one per positive weight.
pub proof fn lemma_prefix_weight_mono(ws: Seq<u64>, i: int, j: int)
    requires
        0 <= i <= j <= ws.len(),
        all_weights_positive(ws),
    ensures
        prefix_weight(ws, i) + (j - i) <= prefix_weight(ws, j),
    decreases j - i,
{
    if i < j {
        lemma_prefix_weight_mono(ws, i, j - 1);
    }
}

/// Randomly choose a canteen from a canteens list.
///
/// The random choice algorithm takes respect to the weights of each canteen.
pub struct CanteenPicker {
    canteens: Vec<Canteen>,
    weight_sums: Vec<u64>,
    weight_sum: u64,
}

/// Relies on `rand::thread_rng` and `rand::Rng::gen_range`: a draw from the
/// non-empty inclusive range `1..=total` lies within that range.
#[verifier::external_body]
fn sample_weight(total: u64) -> (r: u64)
    requires
        total >= 1,
    ensures
        1 <= r <= total,
{
    rand::thread_rng().gen_range(1..=total)
}

impl CanteenPicker {
    /// The canteens the picker chooses from.
    pub closed spec fn spec_canteens(&self) -> Seq<Canteen> {
        self.canteens@
    }

    /// The picker's total weight.
    pub closed spec fn spec_total_weight(&self) -> u64 {
        self.weight_sum
    }

    /// The picker's cumulative weight sums.
    pub closed spec fn spec_weight_sums(&self) -> Seq<u64> {
        self.weight_sums@
    }

    /// Structural invariant: one cumulative sum per canteen, each equal to
    /// the weight of the canteens up to and including its own, all weights
    /// positive, and the total equal to the last cumulative sum.
    pub open spec fn wf(&self) -> bool {
        &&& self.spec_canteens().len() > 0
        &&& self.spec_weight_sums().len() == self.spec_canteens().len()
        &&& all_weights_positive(weights_of(self.spec_canteens()))
        &&& forall|i: int|
            0 <= i < self.spec_canteens().len() ==> #[trigger] self.spec_weight_sums()[i]
                == prefix_weight(weights_of(self.spec_canteens()), i + 1)
        &&& self.spec_total_weight() == prefix_weight(
            weights_of(self.spec_canteens()),
            self.spec_canteens().len() as int,
        )
    }

    /// `i` is the index selected by the draw `sample`: the first index whose
    /// cumulative weight sum reaches the draw.
    pub open spec fn picked_index(&self, i: int, sample: u64) -> bool {
        &&& 0 <= i < self.spec_canteens().len()
        &&& self.spec_weight_sums()[i] >= sample
        &&& forall|j: int| 0 <= j < i ==> #[trigger] self.spec_weight_sums()[j] < sample
    }

    /// Create a new `CanteenPicker` object.
    ///
    /// The canteens list must be non-empty with positive weights whose total
    /// fits in 64 bits; an empty or otherwise unusable catalog is a fatal
    /// configuration error that a caller must reject before construction.
    pub fn new(canteens: Vec<Canteen>) -> (r: CanteenPicker)
        requires
            canteens@.len() > 0,
            all_weights_positive(weights_of(canteens@)),
            prefix_weight(weights_of(canteens@), canteens@.len() as int) <= u64::MAX,
        ensures
            r.wf(),
            r.spec_canteens() == canteens@,
    {
        let n = canteens.len();
        let mut weight_sums: Vec<u64> = Vec::with_capacity(n);
        let mut weight_sum: u64 = 0;
        let mut i: usize = 0;
        while i < n
            invariant
                0 <= i <= n,
                n == canteens@.len(),
                all_weights_positive(weights_of(canteens@)),
                prefix_weight(weights_of(canteens@), n as int) <= u64::MAX,
                weight_sums@.len() == i,
                weight_sum == prefix_weight(weights_of(canteens@), i as int),
                forall|k: int|
                    0 <= k < i ==> #[trigger] weight_sums@[k] == prefix_weight(
                        weights_of(canteens@),
                        k + 1,
                    ),
            decreases n - i,
        {
            proof {
                lemma_prefix_weight_mono(weights_of(canteens@), i as int + 1, n as int);
                lemma_prefix_weight_mono(weights_of(canteens@), 0, i as int + 1);
            }
            weight_sum = weight_sum + canteens[i].weight;
            weight_sums.push(weight_sum);
            i = i + 1;
        }
        CanteenPicker { canteens, weight_sums, weight_sum }
    }

    /// The index of the first cumulative weight sum that reaches `sample`,
    /// found by binary search over the ascending cumulative sums.
    ///
    /// The index is always in range: no draw within `[1, total]` can select
    /// past the end of the catalog.
    pub fn pick_index(&self, sample: u64) -> (idx: usize)
        requires
            self.wf(),
            1 <= sample <= self.spec_total_weight(),
        ensures
            self.picked_index(idx as int, sample),
    {
        proof {
            self.lemma_cumulative_sums_strictly_increasing();
        }
        let n = self.weight_sums.len();
        let mut lo: usize = 0;
        let mut hi: usize = n;
        while lo < hi
            invariant
                0 <= lo <= hi <= n,
                n == self.weight_sums@.len(),
                self.wf(),
                sample <= self.spec_total_weight(),
                forall|j: int| 0 <= j < lo ==> #[trigger] self.weight_sums@[j] < sample,
                forall|j: int| hi <= j < n ==> #[trigger] self.weight_sums@[j] >= sample,
            decreases hi - lo,
        {
            let mid = lo + (hi - lo) / 2;
            if self.weight_sums[mid] < sample {
                proof {
                    assert forall|j: int| 0 <= j < mid + 1 implies #[trigger] self.weight_sums@[j]
                        < sample by {
                        lemma_prefix_weight_mono(weights_of(self.canteens@), j + 1, mid as int + 1);
                    }
                }
                lo = mid + 1;
            } else {
                proof {
                    assert forall|j: int| mid <= j < n implies #[trigger] self.weight_sums@[j]
                        >= sample by {
                        lemma_prefix_weight_mono(weights_of(self.canteens@), mid as int + 1, j + 1);
                    }
                }
                hi = mid;
            }
        }
        proof {
            if lo == n {
                assert(self.weight_sums@[n - 1] == prefix_weight(
                    weights_of(self.canteens@),
                    self.canteens@.len() as int,
                ));
                assert(self.weight_sums@[n - 1] < sample);
            }
        }
        lo
    }

    /// The canteen selected by the draw `sample`.
    pub fn pick_with_sample(&self, sample: u64) -> (r: &Canteen)
        requires
            self.wf(),
            1 <= sample <= self.spec_total_weight(),
        ensures
            exists|i: int| self.picked_index(i, sample) && *r == self.spec_canteens()[i],
    {
        let idx = self.pick_index(sample);
        &self.canteens[idx]
    }

    /// Randomly choose a canteen.
    ///
    /// The result is always one of the picker's canteens: the one selected by
    /// some draw from `[1, total_weight]`.
    pub fn pick(&self) -> (r: &Canteen)
        requires
            self.wf(),
        ensures
            exists|i: int, s: u64|
                1 <= s <= self.spec_total_weight() && self.picked_index(i, s) && *r
                    == self.spec_canteens()[i],
    {
        proof {
            lemma_prefix_weight_mono(weights_of(self.canteens@), 0, self.canteens@.len() as int);
        }
        let sample = sample_weight(self.weight_sum);
        self.pick_with_sample(sample)
    }

    /// The total weight of the catalog.
    pub fn total_weight(&self) -> (r: u64)
        ensures
            r == self.spec_total_weight(),
    {
        self.weight_sum
    }

    /// The number of canteens in the catalog.
    pub fn len(&self) -> (r: usize)
        ensures
            r == self.spec_canteens().len(),
    {
        self.canteens.len()
    }

    /// The canteen at the given position of the catalog.
    pub fn canteen_at(&self, i: usize) -> (r: &Canteen)
        requires
            i < self.spec_canteens().len(),
        ensures
            *r == self.spec_canteens()[i as int],
    {
        &self.canteens[i]
    }

    /// The cumulative weight sums are strictly increasing: no two canteens
    /// ever tie for the same draw, and a draw of `k` after some cumulative
    /// sum selects a later canteen.
    pub proof fn lemma_cumulative_sums_strictly_increasing(&self)
        requires
            self.wf(),
        ensures
            forall|i: int, j: int|
                0 <= i < j < self.spec_weight_sums().len() ==> self.spec_weight_sums()[i]
                    < self.spec_weight_sums()[j],
    {
        assert forall|i: int, j: int|
            0 <= i < j < self.spec_weight_sums().len() implies self.spec_weight_sums()[i]
            < self.spec_weight_sums()[j] by {
            lemma_prefix_weight_mono(weights_of(self.canteens@), i + 1, j + 1);
        }
    }

    /// A draw within `[1, total]` selects the canteen at position `i` exactly
    /// when it falls in the interval of weights that canteen contributes:
    /// `prefix_weight(i) < draw <= prefix_weight(i + 1)`. That interval holds
    /// exactly `weight[i]` of the `total` equally likely draws, so a uniform
    /// draw selects each canteen with probability `weight[i] / total`.
    pub proof fn lemma_selection_interval(&self, i: int, sample: u64)
        requires
            self.wf(),
            0 <= i < self.spec_canteens().len(),
            1 <= sample <= self.spec_total_weight(),
        ensures
            self.picked_index(i, sample) <==> prefix_weight(weights_of(self.spec_canteens()), i)
                < sample <= prefix_weight(weights_of(self.spec_canteens()), i + 1),
    {
        let ws = weights_of(self.spec_canteens());
        if self.picked_index(i, sample) {
            if i > 0 {
                assert(self.spec_weight_sums()[i - 1] < sample);
            }
        }
        if prefix_weight(ws, i) < sample <= prefix_weight(ws, i + 1) {
            assert forall|j: int| 0 <= j < i implies #[trigger] self.spec_weight_sums()[j]
                < sample by {
                lemma_prefix_weight_mono(ws, j + 1, i);
            }
        }
    }

    /// A draw selects exactly one index: the first cumulative sum reaching it.
    pub proof fn lemma_picked_index_unique(&self, i: int, j: int, sample: u64)
        requires
            self.wf(),
            self.picked_index(i, sample),
            self.picked_index(j, sample),
        ensures
            i == j,
    {
    }

    /// A single-item catalog always selects that single item, whatever the
    /// draw.
    pub proof fn lemma_single_item_always_picked(&self, i: int, sample: u64)
        requires
            self.wf(),
            self.spec_canteens().len() == 1,
            self.picked_index(i, sample),
        ensures
            i == 0,
    {
    }
}

} // verus!
