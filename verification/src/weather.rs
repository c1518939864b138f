//! Transformation of fetched temperature history into the per-minute series
//! the engine consumes.

use vstd::prelude::*;
use crate::fixed::{div_i64, lemma_div_ge};
use crate::models::{DataItem, MINUTES};

verus! {

broadcast use vstd::seq_lib::group_seq_properties;

/// One reading of the weather history service: a Unix-millisecond timestamp
/// and a scaled temperature.
#[derive(Clone, Copy, PartialEq, Eq, Structural, Debug)]
pub struct WeatherItem {
    /// Unix epoch milliseconds.
    pub x: i64,
    /// Scaled degrees Celsius.
    pub y: i64,
}

/// Error of the weather history transformation.
#[derive(Debug)]
pub struct WeatherError(pub String);

impl WeatherError {
    /// The error message.
    pub fn message(&self) -> &String {
        &self.0
    }
}

/// A timestamp truncated to its whole minute.
pub open spec fn spec_trunc_minute(x: int) -> int {
    x - (x % 60_000)
}

/// The minute slot of item `k`, counted from the first item's timestamp.
pub open spec fn spec_slot(data: Seq<DataItem>, k: int) -> int {
    (data[k].x - data[0].x) / 60_000
}

/// The index of the last item whose minute slot is at most `j`.
pub open spec fn fill_idx(data: Seq<DataItem>, j: int) -> int
    decreases data.len(),
{
    if data.len() <= 1 {
        0
    } else if spec_slot(data, data.len() - 1) <= j {
        data.len() - 1
    } else {
        fill_idx(data.drop_last(), j)
    }
}

/// The value minute `j` receives from the history: the reading of the last
/// item at or before that minute, carried forward, and zero past the last
/// item.
pub open spec fn spec_fill_value(data: Seq<DataItem>, j: int) -> int {
    if data.len() < 2 {
        0
    } else {
        let k = fill_idx(data, j);
        if k == data.len() - 1 && j > spec_slot(data, k) {
            0
        } else {
            data[k].y as int
        }
    }
}

/// The history's timestamps never decrease.
pub open spec fn sorted_by_x(data: Seq<DataItem>) -> bool {
    forall|a: int, b: int|
        #![trigger data[a].x, data[b].x]
        0 <= a <= b < data.len() ==> data[a].x <= data[b].x
}

/// `fill_idx` is pinned by its two sides: slot at most `j`, next slot past
/// `j`.
proof fn lemma_fill_idx(data: Seq<DataItem>, j: int, k: int)
    requires
        data.len() >= 1,
        sorted_by_x(data),
        0 <= k < data.len(),
        spec_slot(data, k) <= j,
        k + 1 < data.len() ==> spec_slot(data, k + 1) > j,
    ensures
        fill_idx(data, j) == k,
    decreases data.len(),
{
    let n = data.len() as int;
    if n > 1 {
        if spec_slot(data, n - 1) <= j {
            if k < n - 1 {
                assert(data[k + 1].x <= data[n - 1].x);
                assert((data[k + 1].x - data[0].x) / 60_000 <= (data[n - 1].x - data[0].x)
                    / 60_000) by (nonlinear_arith)
                    requires
                        data[k + 1].x <= data[n - 1].x,
                ;
                assert(false);
            }
        } else {
            assert(k < n - 1);
            let dl = data.drop_last();
            assert(dl.len() == n - 1);
            assert(sorted_by_x(dl)) by {
                assert forall|a: int, b: int|
                    #![trigger dl[a].x, dl[b].x]
                    0 <= a <= b < dl.len() implies dl[a].x <= dl[b].x by {
                    assert(dl[a].x == data[a].x);
                    assert(dl[b].x == data[b].x);
                }
            }
            assert(spec_slot(dl, k) == spec_slot(data, k));
            if k + 1 < dl.len() {
                assert(spec_slot(dl, k + 1) == spec_slot(data, k + 1));
            }
            lemma_fill_idx(dl, j, k);
        }
    }
}

/// The histories the expansion accepts: fewer than two readings (a valid
/// no-op), or readings in the Unix-millisecond range, on whole minutes, in
/// time order, spanning less than one day.
pub open spec fn fill_inputs_ok(data: Seq<DataItem>) -> bool {
    data.len() < 2 || {
        &&& forall|i: int|
            0 <= i < data.len() ==> 0 <= #[trigger] data[i].x <= 100_000_000_000_000_000
        &&& forall|i: int| 0 <= i < data.len() ==> #[trigger] data[i].x % 60_000 == 0
        &&& sorted_by_x(data)
        &&& spec_slot(data, data.len() - 1) < MINUTES
    }
}

/// Expands a sparse minute-stamped history into one value per minute of the
/// day, carrying each reading forward to the next one.
///
/// Fewer than two readings give an all-zero day.  Readings out of time
/// order, not on whole minutes, outside the Unix-millisecond range, or
/// spanning more than one day are rejected.
#[verifier::rlimit(60)]
pub fn fill_minutes(data: &Vec<DataItem>) -> (r: Result<Vec<i64>, WeatherError>)
    ensures
        r is Ok <==> fill_inputs_ok(data@),
        r matches Ok(v) ==> v.len() == MINUTES,
        r matches Ok(v) ==> forall|j: int|
            0 <= j < MINUTES ==> #[trigger] v[j] == spec_fill_value(data@, j),
{
    let n: usize = data.len();
    if n < 2 {
        let mut v: Vec<i64> = Vec::new();
        let mut i: usize = 0;
        while i < MINUTES
            invariant
                i <= MINUTES,
                v.len() == i,
                forall|j: int| 0 <= j < i ==> #[trigger] v[j] == 0,
            decreases MINUTES - i,
        {
            v.push(0);
            i = i + 1;
        }
        return Ok(v);
    }
    let mut i: usize = 0;
    while i < n
        invariant
            n == data.len(),
            2 <= n,
            i <= n,
            forall|j: int| 0 <= j < i ==> 0 <= #[trigger] data[j].x <= 100_000_000_000_000_000,
            forall|j: int| 0 <= j < i ==> #[trigger] data[j].x % 60_000 == 0,
            forall|a: int, b: int|
                #![trigger data[a].x, data[b].x]
                0 <= a <= b < i ==> data[a].x <= data[b].x,
        decreases n - i,
    {
        let x: i64 = data[i].x;
        if x < 0 || x > 100_000_000_000_000_000 {
            proof {
                assert(!(0 <= data@[i as int].x <= 100_000_000_000_000_000));
                assert(!fill_inputs_ok(data@));
            }
            return Err(WeatherError("timestamp out of range".to_string()));
        }
        if ((x as u64) % 60_000) as i64 != 0 {
            proof {
                assert(data@[i as int].x % 60_000 != 0);
                assert(!fill_inputs_ok(data@));
            }
            return Err(WeatherError("timestamp not on a whole minute".to_string()));
        }
        if i > 0 {
            if data[i - 1].x > x {
                return Err(WeatherError("history not in time order".to_string()));
            }
        }
        i = i + 1;
    }
    let x0: i64 = data[0].x;
    let last_slot: i64 = div_i64(data[n - 1].x - x0, 60_000);
    proof {
        lemma_div_ge((data@[n as int - 1].x - x0) as int, 60_000, 0);
    }
    if last_slot >= MINUTES as i64 {
        return Err(WeatherError("history spans more than one day".to_string()));
    }
    let mut v: Vec<i64> = Vec::new();
    let mut j: usize = 0;
    let mut k: usize = 0;
    while j < MINUTES
        invariant
            n == data.len(),
            2 <= n,
            x0 == data[0].x,
            forall|q: int| 0 <= q < n ==> 0 <= #[trigger] data[q].x <= 100_000_000_000_000_000,
            sorted_by_x(data@),
            j <= MINUTES,
            k < n,
            spec_slot(data@, k as int) <= j,
            v.len() == j,
            forall|q: int| 0 <= q < j ==> #[trigger] v[q] == spec_fill_value(data@, q),
        decreases MINUTES - j,
    {
        loop
            invariant
                n == data.len(),
                2 <= n,
                x0 == data[0].x,
                forall|q: int|
                    0 <= q < n ==> 0 <= #[trigger] data[q].x <= 100_000_000_000_000_000,
                sorted_by_x(data@),
                j < MINUTES,
                k < n,
                spec_slot(data@, k as int) <= j,
            ensures
                k + 1 < n ==> spec_slot(data@, k as int + 1) > j,
            decreases n - k,
        {
            if k + 1 >= n {
                break;
            }
            proof {
                lemma_div_ge((data@[k as int + 1].x - x0) as int, 60_000, 0);
            }
            let s_next: i64 = div_i64(data[k + 1].x - x0, 60_000);
            if s_next > j as i64 {
                break;
            }
            k = k + 1;
        }
        proof {
            lemma_fill_idx(data@, j as int, k as int);
        }
        let slot_k: i64 = {
            proof {
                lemma_div_ge((data@[k as int].x - x0) as int, 60_000, 0);
            }
            div_i64(data[k].x - x0, 60_000)
        };
        let val: i64 = if k == n - 1 && (j as i64) > slot_k {
            0
        } else {
            data[k].y
        };
        v.push(val);
        j = j + 1;
    }
    Ok(v)
}

/// The history readings with their timestamps truncated to whole minutes.
pub open spec fn spec_mapped(h: Seq<WeatherItem>) -> Seq<DataItem> {
    h.map(
        |i: int, w: WeatherItem|
            DataItem { x: spec_trunc_minute(w.x as int) as i64, y: w.y },
    )
}

/// The transformed history: minute-truncated readings, preceded by a
/// reading at `from` and followed by one at `to` when those instants are
/// not already covered, each carrying the nearest reading's value.
pub open spec fn spec_transform(h: Seq<WeatherItem>, from: i64, to: i64) -> Seq<DataItem> {
    if h.len() == 0 {
        Seq::empty()
    } else {
        let m = spec_mapped(h);
        let m2 = if m[0].x != from {
            seq![DataItem { x: from, y: m[0].y }] + m
        } else {
            m
        };
        if m2[m2.len() - 1].x != to {
            m2.push(DataItem { x: to, y: m2[m2.len() - 1].y })
        } else {
            m2
        }
    }
}

/// A Unix-millisecond timestamp truncated to its whole minute.
fn trunc_minute(x: i64) -> (r: i64)
    requires
        0 <= x <= 100_000_000_000_000_000,
    ensures
        r == spec_trunc_minute(x as int),
        0 <= r <= x,
{
    let q: u64 = (x as u64) % 60_000;
    x - (q as i64)
}

/// Transforms the fetched weather history to a minute-stamped series, making
/// sure the `to` instant has a reading, and possibly also the `from`
/// instant.
pub fn transform_history(history: &Vec<WeatherItem>, from: i64, to: i64) -> (r: Vec<DataItem>)
    requires
        forall|i: int|
            0 <= i < history.len() ==> 0 <= #[trigger] history[i].x <= 100_000_000_000_000_000,
    ensures
        r@ == spec_transform(history@, from, to),
{
    let mut r: Vec<DataItem> = Vec::new();
    if history.len() == 0 {
        proof {
            assert(r@ =~= spec_transform(history@, from, to));
        }
        return r;
    }
    let first_x: i64 = trunc_minute(history[0].x);
    let first_y: i64 = history[0].y;
    let ghost head: Seq<DataItem> = if first_x != from {
        seq![DataItem { x: from, y: first_y }]
    } else {
        Seq::empty()
    };
    if first_x != from {
        r.push(DataItem { x: from, y: first_y });
    }
    proof {
        assert(r@ =~= head + spec_mapped(history@).take(0));
    }
    let mut i: usize = 0;
    while i < history.len()
        invariant
            i <= history.len(),
            history.len() >= 1,
            forall|q: int|
                0 <= q < history.len() ==> 0 <= #[trigger] history[q].x
                    <= 100_000_000_000_000_000,
            r@ == head + spec_mapped(history@).take(i as int),
        decreases history.len() - i,
    {
        let item = DataItem { x: trunc_minute(history[i].x), y: history[i].y };
        r.push(item);
        proof {
            assert(spec_mapped(history@)[i as int] == item);
            assert(spec_mapped(history@).take(i as int + 1) =~= spec_mapped(
                history@,
            ).take(i as int).push(item));
            assert(r@ =~= head + spec_mapped(history@).take(i as int + 1));
        }
        i = i + 1;
    }
    proof {
        assert(spec_mapped(history@).take(history@.len() as int) =~= spec_mapped(history@));
        assert(r@ =~= head + spec_mapped(history@));
        assert(spec_mapped(history@)[0].x == first_x);
    }
    let last = r[r.len() - 1];
    proof {
        let m2 = head + spec_mapped(history@);
        assert(last == m2[m2.len() - 1]);
    }
    if last.x != to {
        r.push(DataItem { x: to, y: last.y });
    }
    r
}

} // verus!
