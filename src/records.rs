//! Record kinds: typed views of decoded records, with the shape each is stored in.
use vstd::prelude::*;

use crate::database::DatabaseRecord;
use crate::shape::{lemma_values_view_all, values_view, Datum, Shape, Value};

verus! {

/// A list of `i32` values, as data.
pub open spec fn i32s_datum(xs: Seq<i32>) -> Datum {
    Datum::List(xs.map_values(|x: i32| Datum::I32(x)))
}

/// A list of `i32` values, as a value to encode.
fn i32s_to_value(xs: &[i32]) -> (r: Value)
    ensures
        r@ == i32s_datum(xs@),
{
    let mut items: Vec<Value> = Vec::new();
    let mut i: usize = 0;
    while i < xs.len()
        invariant
            i <= xs@.len(),
            items@.len() == i,
            forall|j: int| 0 <= j < i ==> (#[trigger] items@[j]) == Value::I32(xs@[j]),
        decreases xs@.len() - i,
    {
        items.push(Value::I32(xs[i]));
        i = i + 1;
    }
    proof {
        lemma_values_view_all(items@);
        assert(values_view(items@) =~= xs@.map_values(|x: i32| Datum::I32(x)));
    }
    Value::List(items)
}

/// The `i32` values a decoded list holds; `None` where it is not a list of `i32`.
fn i32s_from_value(v: &Value) -> (r: Option<Vec<i32>>)
    ensures
        match r {
            Some(xs) => i32s_datum(xs@) == v@,
            None => forall|ys: Seq<i32>| #[trigger] i32s_datum(ys) != v@,
        },
{
    let items = match v {
        Value::List(items) => items,
        _ => return None,
    };
    proof {
        lemma_values_view_all(items@);
    }
    let mut xs: Vec<i32> = Vec::new();
    let mut i: usize = 0;
    while i < items.len()
        invariant
            i <= items@.len(),
            v@ == Datum::List(values_view(items@)),
            values_view(items@).len() == items@.len(),
            forall|j: int| 0 <= j < items@.len() ==> #[trigger] values_view(items@)[j] == items@[j]@,
            xs@.len() == i,
            forall|j: int| 0 <= j < i ==> items@[j]@ == Datum::I32(#[trigger] xs@[j]),
        decreases items@.len() - i,
    {
        match &items[i] {
            Value::I32(x) => xs.push(*x),
            _ => {
                assert forall|ys: Seq<i32>| #[trigger] i32s_datum(ys) != v@ by {
                    if i32s_datum(ys) == v@ {
                        assert(i32s_datum(ys)->List_0[i as int] == items@[i as int]@);
                    }
                }
                return None;
            },
        }
        i = i + 1;
    }
    assert(xs@.map_values(|x: i32| Datum::I32(x)) =~= values_view(items@));
    Some(xs)
}

fn i32_array_4(xs: &Vec<i32>) -> (r: [i32; 4])
    requires
        xs@.len() == 4,
    ensures
        r@ == xs@,
{
    let mut out = [0i32; 4];
    let mut i: usize = 0;
    while i < 4
        invariant
            i <= 4,
            xs@.len() == 4,
            out@.len() == 4,
            forall|j: int| 0 <= j < i ==> out@[j] == xs@[j],
        decreases 4 - i,
    {
        out[i] = xs[i];
        i = i + 1;
    }
    assert(out@ =~= xs@);
    out
}

fn i32_array_6(xs: &Vec<i32>) -> (r: [i32; 6])
    requires
        xs@.len() == 6,
    ensures
        r@ == xs@,
{
    let mut out = [0i32; 6];
    let mut i: usize = 0;
    while i < 6
        invariant
            i <= 6,
            xs@.len() == 6,
            out@.len() == 6,
            forall|j: int| 0 <= j < i ==> out@[j] == xs@[j],
        decreases 6 - i,
    {
        out[i] = xs[i];
        i = i + 1;
    }
    assert(out@ =~= xs@);
    out
}

fn i32_array_8(xs: &Vec<i32>) -> (r: [i32; 8])
    requires
        xs@.len() == 8,
    ensures
        r@ == xs@,
{
    let mut out = [0i32; 8];
    let mut i: usize = 0;
    while i < 8
        invariant
            i <= 8,
            xs@.len() == 8,
            out@.len() == 8,
            forall|j: int| 0 <= j < i ==> out@[j] == xs@[j],
        decreases 8 - i,
    {
        out[i] = xs[i];
        i = i + 1;
    }
    assert(out@ =~= xs@);
    out
}

fn i32_array_18(xs: &Vec<i32>) -> (r: [i32; 18])
    requires
        xs@.len() == 18,
    ensures
        r@ == xs@,
{
    let mut out = [0i32; 18];
    let mut i: usize = 0;
    while i < 18
        invariant
            i <= 18,
            xs@.len() == 18,
            out@.len() == 18,
            forall|j: int| 0 <= j < i ==> out@[j] == xs@[j],
        decreases 18 - i,
    {
        out[i] = xs[i];
        i = i + 1;
    }
    assert(out@ =~= xs@);
    out
}

fn i32_array_21(xs: &Vec<i32>) -> (r: [i32; 21])
    requires
        xs@.len() == 21,
    ensures
        r@ == xs@,
{
    let mut out = [0i32; 21];
    let mut i: usize = 0;
    while i < 21
        invariant
            i <= 21,
            xs@.len() == 21,
            out@.len() == 21,
            forall|j: int| 0 <= j < i ==> out@[j] == xs@[j],
        decreases 21 - i,
    {
        out[i] = xs[i];
        i = i + 1;
    }
    assert(out@ =~= xs@);
    out
}

fn i32_array_37(xs: &Vec<i32>) -> (r: [i32; 37])
    requires
        xs@.len() == 37,
    ensures
        r@ == xs@,
{
    let mut out = [0i32; 37];
    let mut i: usize = 0;
    while i < 37
        invariant
            i <= 37,
            xs@.len() == 37,
            out@.len() == 37,
            forall|j: int| 0 <= j < i ==> out@[j] == xs@[j],
        decreases 37 - i,
    {
        out[i] = xs[i];
        i = i + 1;
    }
    assert(out@ =~= xs@);
    out
}

/// A list of `CmlString`, as data.
pub open spec fn cml_string_list_datum(xs: Seq<CmlString>) -> Datum {
    Datum::List(xs.map_values(|x: CmlString| x.datum()))
}

fn cml_string_list_to_value(xs: &Vec<CmlString>) -> (r: Value)
    ensures
        r@ == cml_string_list_datum(xs@),
{
    let mut items: Vec<Value> = Vec::new();
    let mut i: usize = 0;
    while i < xs.len()
        invariant
            i <= xs@.len(),
            items@.len() == i,
            forall|j: int| 0 <= j < i ==> (#[trigger] items@[j])@ == xs@[j].datum(),
        decreases xs@.len() - i,
    {
        items.push(xs[i].to_value());
        i = i + 1;
    }
    proof {
        lemma_values_view_all(items@);
        assert(values_view(items@) =~= xs@.map_values(|x: CmlString| x.datum()));
    }
    Value::List(items)
}

fn cml_string_list_from_value(v: &Value) -> (r: Option<Vec<CmlString>>)
    ensures
        match r {
            Some(xs) => cml_string_list_datum(xs@) == v@,
            None => forall|ys: Seq<CmlString>| #[trigger] cml_string_list_datum(ys) != v@,
        },
{
    let items = match v {
        Value::List(items) => items,
        _ => return None,
    };
    proof {
        lemma_values_view_all(items@);
    }
    let mut xs: Vec<CmlString> = Vec::new();
    let mut i: usize = 0;
    while i < items.len()
        invariant
            i <= items@.len(),
            v@ == Datum::List(values_view(items@)),
            values_view(items@).len() == items@.len(),
            forall|j: int| 0 <= j < items@.len() ==> #[trigger] values_view(items@)[j] == items@[j]@,
            xs@.len() == i,
            forall|j: int| 0 <= j < i ==> items@[j]@ == (#[trigger] xs@[j]).datum(),
        decreases items@.len() - i,
    {
        match CmlString::from_value(&items[i]) {
            Some(x) => xs.push(x),
            None => {
                assert forall|ys: Seq<CmlString>| #[trigger] cml_string_list_datum(ys) != v@ by {
                    if cml_string_list_datum(ys) == v@ {
                        assert(cml_string_list_datum(ys)->List_0[i as int] == items@[i as int]@);
                        assert(ys[i as int].datum() == items@[i as int]@);
                    }
                }
                return None;
            },
        }
        i = i + 1;
    }
    assert(xs@.map_values(|x: CmlString| x.datum()) =~= values_view(items@));
    Some(xs)
}

/// A list of `DefeatCondition`, as data.
pub open spec fn defeat_condition_list_datum(xs: Seq<DefeatCondition>) -> Datum {
    Datum::List(xs.map_values(|x: DefeatCondition| x.datum()))
}

fn defeat_condition_list_to_value(xs: &Vec<DefeatCondition>) -> (r: Value)
    ensures
        r@ == defeat_condition_list_datum(xs@),
{
    let mut items: Vec<Value> = Vec::new();
    let mut i: usize = 0;
    while i < xs.len()
        invariant
            i <= xs@.len(),
            items@.len() == i,
            forall|j: int| 0 <= j < i ==> (#[trigger] items@[j])@ == xs@[j].datum(),
        decreases xs@.len() - i,
    {
        items.push(xs[i].to_value());
        i = i + 1;
    }
    proof {
        lemma_values_view_all(items@);
        assert(values_view(items@) =~= xs@.map_values(|x: DefeatCondition| x.datum()));
    }
    Value::List(items)
}

fn defeat_condition_list_from_value(v: &Value) -> (r: Option<Vec<DefeatCondition>>)
    ensures
        match r {
            Some(xs) => defeat_condition_list_datum(xs@) == v@,
            None => forall|ys: Seq<DefeatCondition>| #[trigger] defeat_condition_list_datum(ys) != v@,
        },
{
    let items = match v {
        Value::List(items) => items,
        _ => return None,
    };
    proof {
        lemma_values_view_all(items@);
    }
    let mut xs: Vec<DefeatCondition> = Vec::new();
    let mut i: usize = 0;
    while i < items.len()
        invariant
            i <= items@.len(),
            v@ == Datum::List(values_view(items@)),
            values_view(items@).len() == items@.len(),
            forall|j: int| 0 <= j < items@.len() ==> #[trigger] values_view(items@)[j] == items@[j]@,
            xs@.len() == i,
            forall|j: int| 0 <= j < i ==> items@[j]@ == (#[trigger] xs@[j]).datum(),
        decreases items@.len() - i,
    {
        match DefeatCondition::from_value(&items[i]) {
            Some(x) => xs.push(x),
            None => {
                assert forall|ys: Seq<DefeatCondition>| #[trigger] defeat_condition_list_datum(ys) != v@ by {
                    if defeat_condition_list_datum(ys) == v@ {
                        assert(defeat_condition_list_datum(ys)->List_0[i as int] == items@[i as int]@);
                        assert(ys[i as int].datum() == items@[i as int]@);
                    }
                }
                return None;
            },
        }
        i = i + 1;
    }
    assert(xs@.map_values(|x: DefeatCondition| x.datum()) =~= values_view(items@));
    Some(xs)
}

/// A list of `EvilityInfo`, as data.
pub open spec fn evility_info_list_datum(xs: Seq<EvilityInfo>) -> Datum {
    Datum::List(xs.map_values(|x: EvilityInfo| x.datum()))
}

fn evility_info_list_to_value(xs: &Vec<EvilityInfo>) -> (r: Value)
    ensures
        r@ == evility_info_list_datum(xs@),
{
    let mut items: Vec<Value> = Vec::new();
    let mut i: usize = 0;
    while i < xs.len()
        invariant
            i <= xs@.len(),
            items@.len() == i,
            forall|j: int| 0 <= j < i ==> (#[trigger] items@[j])@ == xs@[j].datum(),
        decreases xs@.len() - i,
    {
        items.push(xs[i].to_value());
        i = i + 1;
    }
    proof {
        lemma_values_view_all(items@);
        assert(values_view(items@) =~= xs@.map_values(|x: EvilityInfo| x.datum()));
    }
    Value::List(items)
}

fn evility_info_list_from_value(v: &Value) -> (r: Option<Vec<EvilityInfo>>)
    ensures
        match r {
            Some(xs) => evility_info_list_datum(xs@) == v@,
            None => forall|ys: Seq<EvilityInfo>| #[trigger] evility_info_list_datum(ys) != v@,
        },
{
    let items = match v {
        Value::List(items) => items,
        _ => return None,
    };
    proof {
        lemma_values_view_all(items@);
    }
    let mut xs: Vec<EvilityInfo> = Vec::new();
    let mut i: usize = 0;
    while i < items.len()
        invariant
            i <= items@.len(),
            v@ == Datum::List(values_view(items@)),
            values_view(items@).len() == items@.len(),
            forall|j: int| 0 <= j < items@.len() ==> #[trigger] values_view(items@)[j] == items@[j]@,
            xs@.len() == i,
            forall|j: int| 0 <= j < i ==> items@[j]@ == (#[trigger] xs@[j]).datum(),
        decreases items@.len() - i,
    {
        match EvilityInfo::from_value(&items[i]) {
            Some(x) => xs.push(x),
            None => {
                assert forall|ys: Seq<EvilityInfo>| #[trigger] evility_info_list_datum(ys) != v@ by {
                    if evility_info_list_datum(ys) == v@ {
                        assert(evility_info_list_datum(ys)->List_0[i as int] == items@[i as int]@);
                        assert(ys[i as int].datum() == items@[i as int]@);
                    }
                }
                return None;
            },
        }
        i = i + 1;
    }
    assert(xs@.map_values(|x: EvilityInfo| x.datum()) =~= values_view(items@));
    Some(xs)
}

/// A list of `Info`, as data.
pub open spec fn info_list_datum(xs: Seq<Info>) -> Datum {
    Datum::List(xs.map_values(|x: Info| x.datum()))
}

fn info_list_to_value(xs: &Vec<Info>) -> (r: Value)
    ensures
        r@ == info_list_datum(xs@),
{
    let mut items: Vec<Value> = Vec::new();
    let mut i: usize = 0;
    while i < xs.len()
        invariant
            i <= xs@.len(),
            items@.len() == i,
            forall|j: int| 0 <= j < i ==> (#[trigger] items@[j])@ == xs@[j].datum(),
        decreases xs@.len() - i,
    {
        items.push(xs[i].to_value());
        i = i + 1;
    }
    proof {
        lemma_values_view_all(items@);
        assert(values_view(items@) =~= xs@.map_values(|x: Info| x.datum()));
    }
    Value::List(items)
}

fn info_list_from_value(v: &Value) -> (r: Option<Vec<Info>>)
    ensures
        match r {
            Some(xs) => info_list_datum(xs@) == v@,
            None => forall|ys: Seq<Info>| #[trigger] info_list_datum(ys) != v@,
        },
{
    let items = match v {
        Value::List(items) => items,
        _ => return None,
    };
    proof {
        lemma_values_view_all(items@);
    }
    let mut xs: Vec<Info> = Vec::new();
    let mut i: usize = 0;
    while i < items.len()
        invariant
            i <= items@.len(),
            v@ == Datum::List(values_view(items@)),
            values_view(items@).len() == items@.len(),
            forall|j: int| 0 <= j < items@.len() ==> #[trigger] values_view(items@)[j] == items@[j]@,
            xs@.len() == i,
            forall|j: int| 0 <= j < i ==> items@[j]@ == (#[trigger] xs@[j]).datum(),
        decreases items@.len() - i,
    {
        match Info::from_value(&items[i]) {
            Some(x) => xs.push(x),
            None => {
                assert forall|ys: Seq<Info>| #[trigger] info_list_datum(ys) != v@ by {
                    if info_list_datum(ys) == v@ {
                        assert(info_list_datum(ys)->List_0[i as int] == items@[i as int]@);
                        assert(ys[i as int].datum() == items@[i as int]@);
                    }
                }
                return None;
            },
        }
        i = i + 1;
    }
    assert(xs@.map_values(|x: Info| x.datum()) =~= values_view(items@));
    Some(xs)
}

/// A list of `ItemInfo`, as data.
pub open spec fn item_info_list_datum(xs: Seq<ItemInfo>) -> Datum {
    Datum::List(xs.map_values(|x: ItemInfo| x.datum()))
}

fn item_info_list_to_value(xs: &Vec<ItemInfo>) -> (r: Value)
    ensures
        r@ == item_info_list_datum(xs@),
{
    let mut items: Vec<Value> = Vec::new();
    let mut i: usize = 0;
    while i < xs.len()
        invariant
            i <= xs@.len(),
            items@.len() == i,
            forall|j: int| 0 <= j < i ==> (#[trigger] items@[j])@ == xs@[j].datum(),
        decreases xs@.len() - i,
    {
        items.push(xs[i].to_value());
        i = i + 1;
    }
    proof {
        lemma_values_view_all(items@);
        assert(values_view(items@) =~= xs@.map_values(|x: ItemInfo| x.datum()));
    }
    Value::List(items)
}

fn item_info_list_from_value(v: &Value) -> (r: Option<Vec<ItemInfo>>)
    ensures
        match r {
            Some(xs) => item_info_list_datum(xs@) == v@,
            None => forall|ys: Seq<ItemInfo>| #[trigger] item_info_list_datum(ys) != v@,
        },
{
    let items = match v {
        Value::List(items) => items,
        _ => return None,
    };
    proof {
        lemma_values_view_all(items@);
    }
    let mut xs: Vec<ItemInfo> = Vec::new();
    let mut i: usize = 0;
    while i < items.len()
        invariant
            i <= items@.len(),
            v@ == Datum::List(values_view(items@)),
            values_view(items@).len() == items@.len(),
            forall|j: int| 0 <= j < items@.len() ==> #[trigger] values_view(items@)[j] == items@[j]@,
            xs@.len() == i,
            forall|j: int| 0 <= j < i ==> items@[j]@ == (#[trigger] xs@[j]).datum(),
        decreases items@.len() - i,
    {
        match ItemInfo::from_value(&items[i]) {
            Some(x) => xs.push(x),
            None => {
                assert forall|ys: Seq<ItemInfo>| #[trigger] item_info_list_datum(ys) != v@ by {
                    if item_info_list_datum(ys) == v@ {
                        assert(item_info_list_datum(ys)->List_0[i as int] == items@[i as int]@);
                        assert(ys[i as int].datum() == items@[i as int]@);
                    }
                }
                return None;
            },
        }
        i = i + 1;
    }
    assert(xs@.map_values(|x: ItemInfo| x.datum()) =~= values_view(items@));
    Some(xs)
}

/// A list of `MapLine`, as data.
pub open spec fn map_line_list_datum(xs: Seq<MapLine>) -> Datum {
    Datum::List(xs.map_values(|x: MapLine| x.datum()))
}

fn map_line_list_to_value(xs: &Vec<MapLine>) -> (r: Value)
    ensures
        r@ == map_line_list_datum(xs@),
{
    let mut items: Vec<Value> = Vec::new();
    let mut i: usize = 0;
    while i < xs.len()
        invariant
            i <= xs@.len(),
            items@.len() == i,
            forall|j: int| 0 <= j < i ==> (#[trigger] items@[j])@ == xs@[j].datum(),
        decreases xs@.len() - i,
    {
        items.push(xs[i].to_value());
        i = i + 1;
    }
    proof {
        lemma_values_view_all(items@);
        assert(values_view(items@) =~= xs@.map_values(|x: MapLine| x.datum()));
    }
    Value::List(items)
}

fn map_line_list_from_value(v: &Value) -> (r: Option<Vec<MapLine>>)
    ensures
        match r {
            Some(xs) => map_line_list_datum(xs@) == v@,
            None => forall|ys: Seq<MapLine>| #[trigger] map_line_list_datum(ys) != v@,
        },
{
    let items = match v {
        Value::List(items) => items,
        _ => return None,
    };
    proof {
        lemma_values_view_all(items@);
    }
    let mut xs: Vec<MapLine> = Vec::new();
    let mut i: usize = 0;
    while i < items.len()
        invariant
            i <= items@.len(),
            v@ == Datum::List(values_view(items@)),
            values_view(items@).len() == items@.len(),
            forall|j: int| 0 <= j < items@.len() ==> #[trigger] values_view(items@)[j] == items@[j]@,
            xs@.len() == i,
            forall|j: int| 0 <= j < i ==> items@[j]@ == (#[trigger] xs@[j]).datum(),
        decreases items@.len() - i,
    {
        match MapLine::from_value(&items[i]) {
            Some(x) => xs.push(x),
            None => {
                assert forall|ys: Seq<MapLine>| #[trigger] map_line_list_datum(ys) != v@ by {
                    if map_line_list_datum(ys) == v@ {
                        assert(map_line_list_datum(ys)->List_0[i as int] == items@[i as int]@);
                        assert(ys[i as int].datum() == items@[i as int]@);
                    }
                }
                return None;
            },
        }
        i = i + 1;
    }
    assert(xs@.map_values(|x: MapLine| x.datum()) =~= values_view(items@));
    Some(xs)
}

/// A list of `RankInfo`, as data.
pub open spec fn rank_info_list_datum(xs: Seq<RankInfo>) -> Datum {
    Datum::List(xs.map_values(|x: RankInfo| x.datum()))
}

fn rank_info_list_to_value(xs: &Vec<RankInfo>) -> (r: Value)
    ensures
        r@ == rank_info_list_datum(xs@),
{
    let mut items: Vec<Value> = Vec::new();
    let mut i: usize = 0;
    while i < xs.len()
        invariant
            i <= xs@.len(),
            items@.len() == i,
            forall|j: int| 0 <= j < i ==> (#[trigger] items@[j])@ == xs@[j].datum(),
        decreases xs@.len() - i,
    {
        items.push(xs[i].to_value());
        i = i + 1;
    }
    proof {
        lemma_values_view_all(items@);
        assert(values_view(items@) =~= xs@.map_values(|x: RankInfo| x.datum()));
    }
    Value::List(items)
}

fn rank_info_list_from_value(v: &Value) -> (r: Option<Vec<RankInfo>>)
    ensures
        match r {
            Some(xs) => rank_info_list_datum(xs@) == v@,
            None => forall|ys: Seq<RankInfo>| #[trigger] rank_info_list_datum(ys) != v@,
        },
{
    let items = match v {
        Value::List(items) => items,
        _ => return None,
    };
    proof {
        lemma_values_view_all(items@);
    }
    let mut xs: Vec<RankInfo> = Vec::new();
    let mut i: usize = 0;
    while i < items.len()
        invariant
            i <= items@.len(),
            v@ == Datum::List(values_view(items@)),
            values_view(items@).len() == items@.len(),
            forall|j: int| 0 <= j < items@.len() ==> #[trigger] values_view(items@)[j] == items@[j]@,
            xs@.len() == i,
            forall|j: int| 0 <= j < i ==> items@[j]@ == (#[trigger] xs@[j]).datum(),
        decreases items@.len() - i,
    {
        match RankInfo::from_value(&items[i]) {
            Some(x) => xs.push(x),
            None => {
                assert forall|ys: Seq<RankInfo>| #[trigger] rank_info_list_datum(ys) != v@ by {
                    if rank_info_list_datum(ys) == v@ {
                        assert(rank_info_list_datum(ys)->List_0[i as int] == items@[i as int]@);
                        assert(ys[i as int].datum() == items@[i as int]@);
                    }
                }
                return None;
            },
        }
        i = i + 1;
    }
    assert(xs@.map_values(|x: RankInfo| x.datum()) =~= values_view(items@));
    Some(xs)
}

/// A list of `StageInfo`, as data.
pub open spec fn stage_info_list_datum(xs: Seq<StageInfo>) -> Datum {
    Datum::List(xs.map_values(|x: StageInfo| x.datum()))
}

fn stage_info_list_to_value(xs: &Vec<StageInfo>) -> (r: Value)
    ensures
        r@ == stage_info_list_datum(xs@),
{
    let mut items: Vec<Value> = Vec::new();
    let mut i: usize = 0;
    while i < xs.len()
        invariant
            i <= xs@.len(),
            items@.len() == i,
            forall|j: int| 0 <= j < i ==> (#[trigger] items@[j])@ == xs@[j].datum(),
        decreases xs@.len() - i,
    {
        items.push(xs[i].to_value());
        i = i + 1;
    }
    proof {
        lemma_values_view_all(items@);
        assert(values_view(items@) =~= xs@.map_values(|x: StageInfo| x.datum()));
    }
    Value::List(items)
}

fn stage_info_list_from_value(v: &Value) -> (r: Option<Vec<StageInfo>>)
    ensures
        match r {
            Some(xs) => stage_info_list_datum(xs@) == v@,
            None => forall|ys: Seq<StageInfo>| #[trigger] stage_info_list_datum(ys) != v@,
        },
{
    let items = match v {
        Value::List(items) => items,
        _ => return None,
    };
    proof {
        lemma_values_view_all(items@);
    }
    let mut xs: Vec<StageInfo> = Vec::new();
    let mut i: usize = 0;
    while i < items.len()
        invariant
            i <= items@.len(),
            v@ == Datum::List(values_view(items@)),
            values_view(items@).len() == items@.len(),
            forall|j: int| 0 <= j < items@.len() ==> #[trigger] values_view(items@)[j] == items@[j]@,
            xs@.len() == i,
            forall|j: int| 0 <= j < i ==> items@[j]@ == (#[trigger] xs@[j]).datum(),
        decreases items@.len() - i,
    {
        match StageInfo::from_value(&items[i]) {
            Some(x) => xs.push(x),
            None => {
                assert forall|ys: Seq<StageInfo>| #[trigger] stage_info_list_datum(ys) != v@ by {
                    if stage_info_list_datum(ys) == v@ {
                        assert(stage_info_list_datum(ys)->List_0[i as int] == items@[i as int]@);
                        assert(ys[i as int].datum() == items@[i as int]@);
                    }
                }
                return None;
            },
        }
        i = i + 1;
    }
    assert(xs@.map_values(|x: StageInfo| x.datum()) =~= values_view(items@));
    Some(xs)
}

/// A list of `VictoryCondition`, as data.
pub open spec fn victory_condition_list_datum(xs: Seq<VictoryCondition>) -> Datum {
    Datum::List(xs.map_values(|x: VictoryCondition| x.datum()))
}

fn victory_condition_list_to_value(xs: &Vec<VictoryCondition>) -> (r: Value)
    ensures
        r@ == victory_condition_list_datum(xs@),
{
    let mut items: Vec<Value> = Vec::new();
    let mut i: usize = 0;
    while i < xs.len()
        invariant
            i <= xs@.len(),
            items@.len() == i,
            forall|j: int| 0 <= j < i ==> (#[trigger] items@[j])@ == xs@[j].datum(),
        decreases xs@.len() - i,
    {
        items.push(xs[i].to_value());
        i = i + 1;
    }
    proof {
        lemma_values_view_all(items@);
        assert(values_view(items@) =~= xs@.map_values(|x: VictoryCondition| x.datum()));
    }
    Value::List(items)
}

fn victory_condition_list_from_value(v: &Value) -> (r: Option<Vec<VictoryCondition>>)
    ensures
        match r {
            Some(xs) => victory_condition_list_datum(xs@) == v@,
            None => forall|ys: Seq<VictoryCondition>| #[trigger] victory_condition_list_datum(ys) != v@,
        },
{
    let items = match v {
        Value::List(items) => items,
        _ => return None,
    };
    proof {
        lemma_values_view_all(items@);
    }
    let mut xs: Vec<VictoryCondition> = Vec::new();
    let mut i: usize = 0;
    while i < items.len()
        invariant
            i <= items@.len(),
            v@ == Datum::List(values_view(items@)),
            values_view(items@).len() == items@.len(),
            forall|j: int| 0 <= j < items@.len() ==> #[trigger] values_view(items@)[j] == items@[j]@,
            xs@.len() == i,
            forall|j: int| 0 <= j < i ==> items@[j]@ == (#[trigger] xs@[j]).datum(),
        decreases items@.len() - i,
    {
        match VictoryCondition::from_value(&items[i]) {
            Some(x) => xs.push(x),
            None => {
                assert forall|ys: Seq<VictoryCondition>| #[trigger] victory_condition_list_datum(ys) != v@ by {
                    if victory_condition_list_datum(ys) == v@ {
                        assert(victory_condition_list_datum(ys)->List_0[i as int] == items@[i as int]@);
                        assert(ys[i as int].datum() == items@[i as int]@);
                    }
                }
                return None;
            },
        }
        i = i + 1;
    }
    assert(xs@.map_values(|x: VictoryCondition| x.datum()) =~= values_view(items@));
    Some(xs)
}

/// Text in each of the game's languages.
pub struct CmlString {
    pub jp: String,
    pub en: String,
    pub fr: String,
    pub zh_cn: String,
    pub zh_cht: String,
    pub kr: String,
}

impl CmlString {
    /// The record as data: its fields in declaration order.
    pub open spec fn datum(&self) -> Datum {
        Datum::List(seq![
            Datum::Str(self.jp@),
            Datum::Str(self.en@),
            Datum::Str(self.fr@),
            Datum::Str(self.zh_cn@),
            Datum::Str(self.zh_cht@),
            Datum::Str(self.kr@),
        ])
    }

    /// Whether `s` is the shape this kind is stored in.
    pub open spec fn is_shape(s: Shape) -> bool {
        &&& s is Composite
        &&& s->Composite_0@.len() == 6
        &&& s->Composite_0@[0] is Str
        &&& s->Composite_0@[1] is Str
        &&& s->Composite_0@[2] is Str
        &&& s->Composite_0@[3] is Str
        &&& s->Composite_0@[4] is Str
        &&& s->Composite_0@[5] is Str
    }

    /// The shape this kind is stored in.
    pub fn shape() -> (r: Shape)
        ensures
            Self::is_shape(r),
    {
        let mut fs: Vec<Shape> = Vec::new();
        fs.push(Shape::Str);
        fs.push(Shape::Str);
        fs.push(Shape::Str);
        fs.push(Shape::Str);
        fs.push(Shape::Str);
        fs.push(Shape::Str);
        Shape::Composite(fs)
    }

    /// The record as a value to encode.
    pub fn to_value(&self) -> (r: Value)
        ensures
            r@ == self.datum(),
    {
        let mut items: Vec<Value> = Vec::new();
        items.push(Value::Str(self.jp.clone()));
        items.push(Value::Str(self.en.clone()));
        items.push(Value::Str(self.fr.clone()));
        items.push(Value::Str(self.zh_cn.clone()));
        items.push(Value::Str(self.zh_cht.clone()));
        items.push(Value::Str(self.kr.clone()));
        proof {
            lemma_values_view_all(items@);
            assert(values_view(items@) =~= self.datum()->List_0);
        }
        Value::List(items)
    }

    /// The record a decoded value holds; `None` where no record of this kind
    /// is that value.
    pub fn from_value(v: &Value) -> (r: Option<Self>)
        ensures
            match r {
                Some(x) => x.datum() == v@,
                None => forall|x: Self| #[trigger] x.datum() != v@,
            },
    {
        let items = match v {
            Value::List(items) => items,
            _ => return None,
        };
        proof {
            lemma_values_view_all(items@);
        }
        if items.len() != 6 {
            return None;
        }
        let jp = match &items[0] {
            Value::Str(s) => s.clone(),
            _ => return None,
        };
        let en = match &items[1] {
            Value::Str(s) => s.clone(),
            _ => return None,
        };
        let fr = match &items[2] {
            Value::Str(s) => s.clone(),
            _ => return None,
        };
        let zh_cn = match &items[3] {
            Value::Str(s) => s.clone(),
            _ => return None,
        };
        let zh_cht = match &items[4] {
            Value::Str(s) => s.clone(),
            _ => return None,
        };
        let kr = match &items[5] {
            Value::Str(s) => s.clone(),
            _ => return None,
        };
        let r = CmlString { jp, en, fr, zh_cn, zh_cht, kr };
        assert(r.datum()->List_0 =~= values_view(items@));
        Some(r)
    }
}

/// Text in each of the game's languages, as the older titles lay it out.
pub struct LocaleStrings {
    pub jp: String,
    pub en: String,
    pub fr: String,
    pub zh_cn: String,
    pub zh_cht: String,
    pub kr: String,
}

impl LocaleStrings {
    /// The record as data: its fields in declaration order.
    pub open spec fn datum(&self) -> Datum {
        Datum::List(seq![
            Datum::Str(self.jp@),
            Datum::Str(self.en@),
            Datum::Str(self.fr@),
            Datum::Str(self.zh_cn@),
            Datum::Str(self.zh_cht@),
            Datum::Str(self.kr@),
        ])
    }

    /// Whether `s` is the shape this kind is stored in.
    pub open spec fn is_shape(s: Shape) -> bool {
        &&& s is Composite
        &&& s->Composite_0@.len() == 6
        &&& s->Composite_0@[0] is Str
        &&& s->Composite_0@[1] is Str
        &&& s->Composite_0@[2] is Str
        &&& s->Composite_0@[3] is Str
        &&& s->Composite_0@[4] is Str
        &&& s->Composite_0@[5] is Str
    }

    /// The shape this kind is stored in.
    pub fn shape() -> (r: Shape)
        ensures
            Self::is_shape(r),
    {
        let mut fs: Vec<Shape> = Vec::new();
        fs.push(Shape::Str);
        fs.push(Shape::Str);
        fs.push(Shape::Str);
        fs.push(Shape::Str);
        fs.push(Shape::Str);
        fs.push(Shape::Str);
        Shape::Composite(fs)
    }

    /// The record as a value to encode.
    pub fn to_value(&self) -> (r: Value)
        ensures
            r@ == self.datum(),
    {
        let mut items: Vec<Value> = Vec::new();
        items.push(Value::Str(self.jp.clone()));
        items.push(Value::Str(self.en.clone()));
        items.push(Value::Str(self.fr.clone()));
        items.push(Value::Str(self.zh_cn.clone()));
        items.push(Value::Str(self.zh_cht.clone()));
        items.push(Value::Str(self.kr.clone()));
        proof {
            lemma_values_view_all(items@);
            assert(values_view(items@) =~= self.datum()->List_0);
        }
        Value::List(items)
    }

    /// The record a decoded value holds; `None` where no record of this kind
    /// is that value.
    pub fn from_value(v: &Value) -> (r: Option<Self>)
        ensures
            match r {
                Some(x) => x.datum() == v@,
                None => forall|x: Self| #[trigger] x.datum() != v@,
            },
    {
        let items = match v {
            Value::List(items) => items,
            _ => return None,
        };
        proof {
            lemma_values_view_all(items@);
        }
        if items.len() != 6 {
            return None;
        }
        let jp = match &items[0] {
            Value::Str(s) => s.clone(),
            _ => return None,
        };
        let en = match &items[1] {
            Value::Str(s) => s.clone(),
            _ => return None,
        };
        let fr = match &items[2] {
            Value::Str(s) => s.clone(),
            _ => return None,
        };
        let zh_cn = match &items[3] {
            Value::Str(s) => s.clone(),
            _ => return None,
        };
        let zh_cht = match &items[4] {
            Value::Str(s) => s.clone(),
            _ => return None,
        };
        let kr = match &items[5] {
            Value::Str(s) => s.clone(),
            _ => return None,
        };
        let r = LocaleStrings { jp, en, fr, zh_cn, zh_cht, kr };
        assert(r.datum()->List_0 =~= values_view(items@));
        Some(r)
    }
}

/// A key and its value.
pub struct PairData {
    pub key: i32,
    pub value: i32,
}

impl PairData {
    /// The record as data: its fields in declaration order.
    pub open spec fn datum(&self) -> Datum {
        Datum::List(seq![
            Datum::I32(self.key),
            Datum::I32(self.value),
        ])
    }

    /// Whether `s` is the shape this kind is stored in.
    pub open spec fn is_shape(s: Shape) -> bool {
        &&& s is Composite
        &&& s->Composite_0@.len() == 2
        &&& s->Composite_0@[0] is I32
        &&& s->Composite_0@[1] is I32
    }

    /// The shape this kind is stored in.
    pub fn shape() -> (r: Shape)
        ensures
            Self::is_shape(r),
    {
        let mut fs: Vec<Shape> = Vec::new();
        fs.push(Shape::I32);
        fs.push(Shape::I32);
        Shape::Composite(fs)
    }

    /// The record as a value to encode.
    pub fn to_value(&self) -> (r: Value)
        ensures
            r@ == self.datum(),
    {
        let mut items: Vec<Value> = Vec::new();
        items.push(Value::I32(self.key));
        items.push(Value::I32(self.value));
        proof {
            lemma_values_view_all(items@);
            assert(values_view(items@) =~= self.datum()->List_0);
        }
        Value::List(items)
    }

    /// The record a decoded value holds; `None` where no record of this kind
    /// is that value.
    pub fn from_value(v: &Value) -> (r: Option<Self>)
        ensures
            match r {
                Some(x) => x.datum() == v@,
                None => forall|x: Self| #[trigger] x.datum() != v@,
            },
    {
        let items = match v {
            Value::List(items) => items,
            _ => return None,
        };
        proof {
            lemma_values_view_all(items@);
        }
        if items.len() != 2 {
            return None;
        }
        let key = match &items[0] {
            Value::I32(x) => *x,
            _ => return None,
        };
        let value = match &items[1] {
            Value::I32(x) => *x,
            _ => return None,
        };
        let r = PairData { key, value };
        assert(r.datum()->List_0 =~= values_view(items@));
        Some(r)
    }
}

/// A named game flag.
pub struct GameFlag {
    pub id: u32,
    pub name: String,
    pub editor_desc: String,
}

impl GameFlag {
    /// The record as data: its fields in declaration order.
    pub open spec fn datum(&self) -> Datum {
        Datum::List(seq![
            Datum::U32(self.id),
            Datum::Str(self.name@),
            Datum::Str(self.editor_desc@),
        ])
    }

    /// Whether `s` is the shape this kind is stored in.
    pub open spec fn is_shape(s: Shape) -> bool {
        &&& s is Composite
        &&& s->Composite_0@.len() == 3
        &&& s->Composite_0@[0] is U32
        &&& s->Composite_0@[1] is Str
        &&& s->Composite_0@[2] is Str
    }

    /// The shape this kind is stored in.
    pub fn shape() -> (r: Shape)
        ensures
            Self::is_shape(r),
    {
        let mut fs: Vec<Shape> = Vec::new();
        fs.push(Shape::U32);
        fs.push(Shape::Str);
        fs.push(Shape::Str);
        Shape::Composite(fs)
    }

    /// The record as a value to encode.
    pub fn to_value(&self) -> (r: Value)
        ensures
            r@ == self.datum(),
    {
        let mut items: Vec<Value> = Vec::new();
        items.push(Value::U32(self.id));
        items.push(Value::Str(self.name.clone()));
        items.push(Value::Str(self.editor_desc.clone()));
        proof {
            lemma_values_view_all(items@);
            assert(values_view(items@) =~= self.datum()->List_0);
        }
        Value::List(items)
    }

    /// The record a decoded value holds; `None` where no record of this kind
    /// is that value.
    pub fn from_value(v: &Value) -> (r: Option<Self>)
        ensures
            match r {
                Some(x) => x.datum() == v@,
                None => forall|x: Self| #[trigger] x.datum() != v@,
            },
    {
        let items = match v {
            Value::List(items) => items,
            _ => return None,
        };
        proof {
            lemma_values_view_all(items@);
        }
        if items.len() != 3 {
            return None;
        }
        let id = match &items[0] {
            Value::U32(x) => *x,
            _ => return None,
        };
        let name = match &items[1] {
            Value::Str(s) => s.clone(),
            _ => return None,
        };
        let editor_desc = match &items[2] {
            Value::Str(s) => s.clone(),
            _ => return None,
        };
        let r = GameFlag { id, name, editor_desc };
        assert(r.datum()->List_0 =~= values_view(items@));
        Some(r)
    }
}

/// A text entry.
pub struct StringData {
    pub id: i32,
    pub enum_name: String,
    pub text: CmlString,
    pub version: i32,
    pub region: u32,
    pub product: u32,
    pub platform: u32,
}

impl StringData {
    /// The record as data: its fields in declaration order.
    pub open spec fn datum(&self) -> Datum {
        Datum::List(seq![
            Datum::I32(self.id),
            Datum::Str(self.enum_name@),
            self.text.datum(),
            Datum::I32(self.version),
            Datum::U32(self.region),
            Datum::U32(self.product),
            Datum::U32(self.platform),
        ])
    }

    /// Whether `s` is the shape this kind is stored in.
    pub open spec fn is_shape(s: Shape) -> bool {
        &&& s is Composite
        &&& s->Composite_0@.len() == 7
        &&& s->Composite_0@[0] is I32
        &&& s->Composite_0@[1] is Str
        &&& CmlString::is_shape(s->Composite_0@[2])
        &&& s->Composite_0@[3] is I32
        &&& s->Composite_0@[4] is U32
        &&& s->Composite_0@[5] is U32
        &&& s->Composite_0@[6] is U32
    }

    /// The shape this kind is stored in.
    pub fn shape() -> (r: Shape)
        ensures
            Self::is_shape(r),
    {
        let mut fs: Vec<Shape> = Vec::new();
        fs.push(Shape::I32);
        fs.push(Shape::Str);
        fs.push(CmlString::shape());
        fs.push(Shape::I32);
        fs.push(Shape::U32);
        fs.push(Shape::U32);
        fs.push(Shape::U32);
        Shape::Composite(fs)
    }

    /// The record as a value to encode.
    pub fn to_value(&self) -> (r: Value)
        ensures
            r@ == self.datum(),
    {
        let mut items: Vec<Value> = Vec::new();
        items.push(Value::I32(self.id));
        items.push(Value::Str(self.enum_name.clone()));
        items.push(self.text.to_value());
        items.push(Value::I32(self.version));
        items.push(Value::U32(self.region));
        items.push(Value::U32(self.product));
        items.push(Value::U32(self.platform));
        proof {
            lemma_values_view_all(items@);
            assert(values_view(items@) =~= self.datum()->List_0);
        }
        Value::List(items)
    }

    /// The record a decoded value holds; `None` where no record of this kind
    /// is that value.
    pub fn from_value(v: &Value) -> (r: Option<Self>)
        ensures
            match r {
                Some(x) => x.datum() == v@,
                None => forall|x: Self| #[trigger] x.datum() != v@,
            },
    {
        let items = match v {
            Value::List(items) => items,
            _ => return None,
        };
        proof {
            lemma_values_view_all(items@);
        }
        if items.len() != 7 {
            return None;
        }
        let id = match &items[0] {
            Value::I32(x) => *x,
            _ => return None,
        };
        let enum_name = match &items[1] {
            Value::Str(s) => s.clone(),
            _ => return None,
        };
        let text = match CmlString::from_value(&items[2]) {
            Some(x) => x,
            None => {
                assert forall|x: Self| #[trigger] x.datum() != v@ by {
                    if x.datum() == v@ {
                        assert(x.datum()->List_0[2] == items@[2]@);
                    }
                }
                return None;
            },
        };
        let version = match &items[3] {
            Value::I32(x) => *x,
            _ => return None,
        };
        let region = match &items[4] {
            Value::U32(x) => *x,
            _ => return None,
        };
        let product = match &items[5] {
            Value::U32(x) => *x,
            _ => return None,
        };
        let platform = match &items[6] {
            Value::U32(x) => *x,
            _ => return None,
        };
        let r = StringData { id, enum_name, text, version, region, product, platform };
        assert(r.datum()->List_0 =~= values_view(items@));
        Some(r)
    }
}

impl DatabaseRecord for StringData {
    open spec fn spec_id(&self) -> i32 {
        self.id
    }

    open spec fn spec_enum_name(&self) -> Seq<char> {
        self.enum_name@
    }

    fn database_id(&self) -> (r: i32) {
        self.id
    }

    fn database_enum_name(&self) -> (r: &str) {
        self.enum_name.as_str()
    }
}

/// An archive file the game loads.
pub struct ArchiveData {
    pub id: i32,
    pub enum_name: String,
    pub file_name: String,
    pub version: i32,
    pub region: u32,
    pub product: u32,
    pub platform: u32,
}

impl ArchiveData {
    /// The record as data: its fields in declaration order.
    pub open spec fn datum(&self) -> Datum {
        Datum::List(seq![
            Datum::I32(self.id),
            Datum::Str(self.enum_name@),
            Datum::Str(self.file_name@),
            Datum::I32(self.version),
            Datum::U32(self.region),
            Datum::U32(self.product),
            Datum::U32(self.platform),
        ])
    }

    /// Whether `s` is the shape this kind is stored in.
    pub open spec fn is_shape(s: Shape) -> bool {
        &&& s is Composite
        &&& s->Composite_0@.len() == 7
        &&& s->Composite_0@[0] is I32
        &&& s->Composite_0@[1] is Str
        &&& s->Composite_0@[2] is Str
        &&& s->Composite_0@[3] is I32
        &&& s->Composite_0@[4] is U32
        &&& s->Composite_0@[5] is U32
        &&& s->Composite_0@[6] is U32
    }

    /// The shape this kind is stored in.
    pub fn shape() -> (r: Shape)
        ensures
            Self::is_shape(r),
    {
        let mut fs: Vec<Shape> = Vec::new();
        fs.push(Shape::I32);
        fs.push(Shape::Str);
        fs.push(Shape::Str);
        fs.push(Shape::I32);
        fs.push(Shape::U32);
        fs.push(Shape::U32);
        fs.push(Shape::U32);
        Shape::Composite(fs)
    }

    /// The record as a value to encode.
    pub fn to_value(&self) -> (r: Value)
        ensures
            r@ == self.datum(),
    {
        let mut items: Vec<Value> = Vec::new();
        items.push(Value::I32(self.id));
        items.push(Value::Str(self.enum_name.clone()));
        items.push(Value::Str(self.file_name.clone()));
        items.push(Value::I32(self.version));
        items.push(Value::U32(self.region));
        items.push(Value::U32(self.product));
        items.push(Value::U32(self.platform));
        proof {
            lemma_values_view_all(items@);
            assert(values_view(items@) =~= self.datum()->List_0);
        }
        Value::List(items)
    }

    /// The record a decoded value holds; `None` where no record of this kind
    /// is that value.
    pub fn from_value(v: &Value) -> (r: Option<Self>)
        ensures
            match r {
                Some(x) => x.datum() == v@,
                None => forall|x: Self| #[trigger] x.datum() != v@,
            },
    {
        let items = match v {
            Value::List(items) => items,
            _ => return None,
        };
        proof {
            lemma_values_view_all(items@);
        }
        if items.len() != 7 {
            return None;
        }
        let id = match &items[0] {
            Value::I32(x) => *x,
            _ => return None,
        };
        let enum_name = match &items[1] {
            Value::Str(s) => s.clone(),
            _ => return None,
        };
        let file_name = match &items[2] {
            Value::Str(s) => s.clone(),
            _ => return None,
        };
        let version = match &items[3] {
            Value::I32(x) => *x,
            _ => return None,
        };
        let region = match &items[4] {
            Value::U32(x) => *x,
            _ => return None,
        };
        let product = match &items[5] {
            Value::U32(x) => *x,
            _ => return None,
        };
        let platform = match &items[6] {
            Value::U32(x) => *x,
            _ => return None,
        };
        let r = ArchiveData { id, enum_name, file_name, version, region, product, platform };
        assert(r.datum()->List_0 =~= values_view(items@));
        Some(r)
    }
}

impl DatabaseRecord for ArchiveData {
    open spec fn spec_id(&self) -> i32 {
        self.id
    }

    open spec fn spec_enum_name(&self) -> Seq<char> {
        self.enum_name@
    }

    fn database_id(&self) -> (r: i32) {
        self.id
    }

    fn database_enum_name(&self) -> (r: &str) {
        self.enum_name.as_str()
    }
}

/// A battle flag.
pub struct BattleFlagData {
    pub id: i32,
    pub enum_name: String,
    pub comment: String,
    pub flag_on: i32,
    pub version: i32,
    pub region: u32,
    pub product: u32,
    pub platform: u32,
}

impl BattleFlagData {
    /// The record as data: its fields in declaration order.
    pub open spec fn datum(&self) -> Datum {
        Datum::List(seq![
            Datum::I32(self.id),
            Datum::Str(self.enum_name@),
            Datum::Str(self.comment@),
            Datum::I32(self.flag_on),
            Datum::I32(self.version),
            Datum::U32(self.region),
            Datum::U32(self.product),
            Datum::U32(self.platform),
        ])
    }

    /// Whether `s` is the shape this kind is stored in.
    pub open spec fn is_shape(s: Shape) -> bool {
        &&& s is Composite
        &&& s->Composite_0@.len() == 8
        &&& s->Composite_0@[0] is I32
        &&& s->Composite_0@[1] is Str
        &&& s->Composite_0@[2] is Str
        &&& s->Composite_0@[3] is I32
        &&& s->Composite_0@[4] is I32
        &&& s->Composite_0@[5] is U32
        &&& s->Composite_0@[6] is U32
        &&& s->Composite_0@[7] is U32
    }

    /// The shape this kind is stored in.
    pub fn shape() -> (r: Shape)
        ensures
            Self::is_shape(r),
    {
        let mut fs: Vec<Shape> = Vec::new();
        fs.push(Shape::I32);
        fs.push(Shape::Str);
        fs.push(Shape::Str);
        fs.push(Shape::I32);
        fs.push(Shape::I32);
        fs.push(Shape::U32);
        fs.push(Shape::U32);
        fs.push(Shape::U32);
        Shape::Composite(fs)
    }

    /// The record as a value to encode.
    pub fn to_value(&self) -> (r: Value)
        ensures
            r@ == self.datum(),
    {
        let mut items: Vec<Value> = Vec::new();
        items.push(Value::I32(self.id));
        items.push(Value::Str(self.enum_name.clone()));
        items.push(Value::Str(self.comment.clone()));
        items.push(Value::I32(self.flag_on));
        items.push(Value::I32(self.version));
        items.push(Value::U32(self.region));
        items.push(Value::U32(self.product));
        items.push(Value::U32(self.platform));
        proof {
            lemma_values_view_all(items@);
            assert(values_view(items@) =~= self.datum()->List_0);
        }
        Value::List(items)
    }

    /// The record a decoded value holds; `None` where no record of this kind
    /// is that value.
    pub fn from_value(v: &Value) -> (r: Option<Self>)
        ensures
            match r {
                Some(x) => x.datum() == v@,
                None => forall|x: Self| #[trigger] x.datum() != v@,
            },
    {
        let items = match v {
            Value::List(items) => items,
            _ => return None,
        };
        proof {
            lemma_values_view_all(items@);
        }
        if items.len() != 8 {
            return None;
        }
        let id = match &items[0] {
            Value::I32(x) => *x,
            _ => return None,
        };
        let enum_name = match &items[1] {
            Value::Str(s) => s.clone(),
            _ => return None,
        };
        let comment = match &items[2] {
            Value::Str(s) => s.clone(),
            _ => return None,
        };
        let flag_on = match &items[3] {
            Value::I32(x) => *x,
            _ => return None,
        };
        let version = match &items[4] {
            Value::I32(x) => *x,
            _ => return None,
        };
        let region = match &items[5] {
            Value::U32(x) => *x,
            _ => return None,
        };
        let product = match &items[6] {
            Value::U32(x) => *x,
            _ => return None,
        };
        let platform = match &items[7] {
            Value::U32(x) => *x,
            _ => return None,
        };
        let r = BattleFlagData { id, enum_name, comment, flag_on, version, region, product, platform };
        assert(r.datum()->List_0 =~= values_view(items@));
        Some(r)
    }
}

impl DatabaseRecord for BattleFlagData {
    open spec fn spec_id(&self) -> i32 {
        self.id
    }

    open spec fn spec_enum_name(&self) -> Seq<char> {
        self.enum_name@
    }

    fn database_id(&self) -> (r: i32) {
        self.id
    }

    fn database_enum_name(&self) -> (r: &str) {
        self.enum_name.as_str()
    }
}

/// An effect an action can have.
pub struct ActEffectData {
    pub id: i32,
    pub enum_name: String,
    pub name: String,
    pub version: i32,
    pub region: u32,
    pub product: u32,
    pub platform: u32,
}

impl ActEffectData {
    /// The record as data: its fields in declaration order.
    pub open spec fn datum(&self) -> Datum {
        Datum::List(seq![
            Datum::I32(self.id),
            Datum::Str(self.enum_name@),
            Datum::Str(self.name@),
            Datum::I32(self.version),
            Datum::U32(self.region),
            Datum::U32(self.product),
            Datum::U32(self.platform),
        ])
    }

    /// Whether `s` is the shape this kind is stored in.
    pub open spec fn is_shape(s: Shape) -> bool {
        &&& s is Composite
        &&& s->Composite_0@.len() == 7
        &&& s->Composite_0@[0] is I32
        &&& s->Composite_0@[1] is Str
        &&& s->Composite_0@[2] is Str
        &&& s->Composite_0@[3] is I32
        &&& s->Composite_0@[4] is U32
        &&& s->Composite_0@[5] is U32
        &&& s->Composite_0@[6] is U32
    }

    /// The shape this kind is stored in.
    pub fn shape() -> (r: Shape)
        ensures
            Self::is_shape(r),
    {
        let mut fs: Vec<Shape> = Vec::new();
        fs.push(Shape::I32);
        fs.push(Shape::Str);
        fs.push(Shape::Str);
        fs.push(Shape::I32);
        fs.push(Shape::U32);
        fs.push(Shape::U32);
        fs.push(Shape::U32);
        Shape::Composite(fs)
    }

    /// The record as a value to encode.
    pub fn to_value(&self) -> (r: Value)
        ensures
            r@ == self.datum(),
    {
        let mut items: Vec<Value> = Vec::new();
        items.push(Value::I32(self.id));
        items.push(Value::Str(self.enum_name.clone()));
        items.push(Value::Str(self.name.clone()));
        items.push(Value::I32(self.version));
        items.push(Value::U32(self.region));
        items.push(Value::U32(self.product));
        items.push(Value::U32(self.platform));
        proof {
            lemma_values_view_all(items@);
            assert(values_view(items@) =~= self.datum()->List_0);
        }
        Value::List(items)
    }

    /// The record a decoded value holds; `None` where no record of this kind
    /// is that value.
    pub fn from_value(v: &Value) -> (r: Option<Self>)
        ensures
            match r {
                Some(x) => x.datum() == v@,
                None => forall|x: Self| #[trigger] x.datum() != v@,
            },
    {
        let items = match v {
            Value::List(items) => items,
            _ => return None,
        };
        proof {
            lemma_values_view_all(items@);
        }
        if items.len() != 7 {
            return None;
        }
        let id = match &items[0] {
            Value::I32(x) => *x,
            _ => return None,
        };
        let enum_name = match &items[1] {
            Value::Str(s) => s.clone(),
            _ => return None,
        };
        let name = match &items[2] {
            Value::Str(s) => s.clone(),
            _ => return None,
        };
        let version = match &items[3] {
            Value::I32(x) => *x,
            _ => return None,
        };
        let region = match &items[4] {
            Value::U32(x) => *x,
            _ => return None,
        };
        let product = match &items[5] {
            Value::U32(x) => *x,
            _ => return None,
        };
        let platform = match &items[6] {
            Value::U32(x) => *x,
            _ => return None,
        };
        let r = ActEffectData { id, enum_name, name, version, region, product, platform };
        assert(r.datum()->List_0 =~= values_view(items@));
        Some(r)
    }
}

impl DatabaseRecord for ActEffectData {
    open spec fn spec_id(&self) -> i32 {
        self.id
    }

    open spec fn spec_enum_name(&self) -> Seq<char> {
        self.enum_name@
    }

    fn database_id(&self) -> (r: i32) {
        self.id
    }

    fn database_enum_name(&self) -> (r: &str) {
        self.enum_name.as_str()
    }
}

/// A character feature.
pub struct CharaFeatureData {
    pub id: i32,
    pub enum_name: String,
    pub name: String,
    pub ml_name: CmlString,
    pub version: i32,
    pub region: u32,
    pub product: u32,
    pub platform: u32,
}

impl CharaFeatureData {
    /// The record as data: its fields in declaration order.
    pub open spec fn datum(&self) -> Datum {
        Datum::List(seq![
            Datum::I32(self.id),
            Datum::Str(self.enum_name@),
            Datum::Str(self.name@),
            self.ml_name.datum(),
            Datum::I32(self.version),
            Datum::U32(self.region),
            Datum::U32(self.product),
            Datum::U32(self.platform),
        ])
    }

    /// Whether `s` is the shape this kind is stored in.
    pub open spec fn is_shape(s: Shape) -> bool {
        &&& s is Composite
        &&& s->Composite_0@.len() == 8
        &&& s->Composite_0@[0] is I32
        &&& s->Composite_0@[1] is Str
        &&& s->Composite_0@[2] is Str
        &&& CmlString::is_shape(s->Composite_0@[3])
        &&& s->Composite_0@[4] is I32
        &&& s->Composite_0@[5] is U32
        &&& s->Composite_0@[6] is U32
        &&& s->Composite_0@[7] is U32
    }

    /// The shape this kind is stored in.
    pub fn shape() -> (r: Shape)
        ensures
            Self::is_shape(r),
    {
        let mut fs: Vec<Shape> = Vec::new();
        fs.push(Shape::I32);
        fs.push(Shape::Str);
        fs.push(Shape::Str);
        fs.push(CmlString::shape());
        fs.push(Shape::I32);
        fs.push(Shape::U32);
        fs.push(Shape::U32);
        fs.push(Shape::U32);
        Shape::Composite(fs)
    }

    /// The record as a value to encode.
    pub fn to_value(&self) -> (r: Value)
        ensures
            r@ == self.datum(),
    {
        let mut items: Vec<Value> = Vec::new();
        items.push(Value::I32(self.id));
        items.push(Value::Str(self.enum_name.clone()));
        items.push(Value::Str(self.name.clone()));
        items.push(self.ml_name.to_value());
        items.push(Value::I32(self.version));
        items.push(Value::U32(self.region));
        items.push(Value::U32(self.product));
        items.push(Value::U32(self.platform));
        proof {
            lemma_values_view_all(items@);
            assert(values_view(items@) =~= self.datum()->List_0);
        }
        Value::List(items)
    }

    /// The record a decoded value holds; `None` where no record of this kind
    /// is that value.
    pub fn from_value(v: &Value) -> (r: Option<Self>)
        ensures
            match r {
                Some(x) => x.datum() == v@,
                None => forall|x: Self| #[trigger] x.datum() != v@,
            },
    {
        let items = match v {
            Value::List(items) => items,
            _ => return None,
        };
        proof {
            lemma_values_view_all(items@);
        }
        if items.len() != 8 {
            return None;
        }
        let id = match &items[0] {
            Value::I32(x) => *x,
            _ => return None,
        };
        let enum_name = match &items[1] {
            Value::Str(s) => s.clone(),
            _ => return None,
        };
        let name = match &items[2] {
            Value::Str(s) => s.clone(),
            _ => return None,
        };
        let ml_name = match CmlString::from_value(&items[3]) {
            Some(x) => x,
            None => {
                assert forall|x: Self| #[trigger] x.datum() != v@ by {
                    if x.datum() == v@ {
                        assert(x.datum()->List_0[3] == items@[3]@);
                    }
                }
                return None;
            },
        };
        let version = match &items[4] {
            Value::I32(x) => *x,
            _ => return None,
        };
        let region = match &items[5] {
            Value::U32(x) => *x,
            _ => return None,
        };
        let product = match &items[6] {
            Value::U32(x) => *x,
            _ => return None,
        };
        let platform = match &items[7] {
            Value::U32(x) => *x,
            _ => return None,
        };
        let r = CharaFeatureData { id, enum_name, name, ml_name, version, region, product, platform };
        assert(r.datum()->List_0 =~= values_view(items@));
        Some(r)
    }
}

impl DatabaseRecord for CharaFeatureData {
    open spec fn spec_id(&self) -> i32 {
        self.id
    }

    open spec fn spec_enum_name(&self) -> Seq<char> {
        self.enum_name@
    }

    fn database_id(&self) -> (r: i32) {
        self.id
    }

    fn database_enum_name(&self) -> (r: &str) {
        self.enum_name.as_str()
    }
}

/// A script bound to an animation.
pub struct BuData {
    pub id: i32,
    pub script_name: String,
    pub anime_id: i32,
    pub seq_no: i32,
    pub version: i32,
    pub region: u32,
    pub product: u32,
    pub platform: u32,
}

impl BuData {
    /// The record as data: its fields in declaration order.
    pub open spec fn datum(&self) -> Datum {
        Datum::List(seq![
            Datum::I32(self.id),
            Datum::Str(self.script_name@),
            Datum::I32(self.anime_id),
            Datum::I32(self.seq_no),
            Datum::I32(self.version),
            Datum::U32(self.region),
            Datum::U32(self.product),
            Datum::U32(self.platform),
        ])
    }

    /// Whether `s` is the shape this kind is stored in.
    pub open spec fn is_shape(s: Shape) -> bool {
        &&& s is Composite
        &&& s->Composite_0@.len() == 8
        &&& s->Composite_0@[0] is I32
        &&& s->Composite_0@[1] is Str
        &&& s->Composite_0@[2] is I32
        &&& s->Composite_0@[3] is I32
        &&& s->Composite_0@[4] is I32
        &&& s->Composite_0@[5] is U32
        &&& s->Composite_0@[6] is U32
        &&& s->Composite_0@[7] is U32
    }

    /// The shape this kind is stored in.
    pub fn shape() -> (r: Shape)
        ensures
            Self::is_shape(r),
    {
        let mut fs: Vec<Shape> = Vec::new();
        fs.push(Shape::I32);
        fs.push(Shape::Str);
        fs.push(Shape::I32);
        fs.push(Shape::I32);
        fs.push(Shape::I32);
        fs.push(Shape::U32);
        fs.push(Shape::U32);
        fs.push(Shape::U32);
        Shape::Composite(fs)
    }

    /// The record as a value to encode.
    pub fn to_value(&self) -> (r: Value)
        ensures
            r@ == self.datum(),
    {
        let mut items: Vec<Value> = Vec::new();
        items.push(Value::I32(self.id));
        items.push(Value::Str(self.script_name.clone()));
        items.push(Value::I32(self.anime_id));
        items.push(Value::I32(self.seq_no));
        items.push(Value::I32(self.version));
        items.push(Value::U32(self.region));
        items.push(Value::U32(self.product));
        items.push(Value::U32(self.platform));
        proof {
            lemma_values_view_all(items@);
            assert(values_view(items@) =~= self.datum()->List_0);
        }
        Value::List(items)
    }

    /// The record a decoded value holds; `None` where no record of this kind
    /// is that value.
    pub fn from_value(v: &Value) -> (r: Option<Self>)
        ensures
            match r {
                Some(x) => x.datum() == v@,
                None => forall|x: Self| #[trigger] x.datum() != v@,
            },
    {
        let items = match v {
            Value::List(items) => items,
            _ => return None,
        };
        proof {
            lemma_values_view_all(items@);
        }
        if items.len() != 8 {
            return None;
        }
        let id = match &items[0] {
            Value::I32(x) => *x,
            _ => return None,
        };
        let script_name = match &items[1] {
            Value::Str(s) => s.clone(),
            _ => return None,
        };
        let anime_id = match &items[2] {
            Value::I32(x) => *x,
            _ => return None,
        };
        let seq_no = match &items[3] {
            Value::I32(x) => *x,
            _ => return None,
        };
        let version = match &items[4] {
            Value::I32(x) => *x,
            _ => return None,
        };
        let region = match &items[5] {
            Value::U32(x) => *x,
            _ => return None,
        };
        let product = match &items[6] {
            Value::U32(x) => *x,
            _ => return None,
        };
        let platform = match &items[7] {
            Value::U32(x) => *x,
            _ => return None,
        };
        let r = BuData { id, script_name, anime_id, seq_no, version, region, product, platform };
        assert(r.datum()->List_0 =~= values_view(items@));
        Some(r)
    }
}

impl DatabaseRecord for BuData {
    open spec fn spec_id(&self) -> i32 {
        self.id
    }

    open spec fn spec_enum_name(&self) -> Seq<char> {
        Seq::empty()
    }

    fn database_id(&self) -> (r: i32) {
        self.id
    }

    fn database_enum_name(&self) -> (r: &str) {
        proof {
            reveal_strlit("");
        }
        ""
    }
}

/// A bank of animations.
pub struct AnimeBankData {
    pub id: i32,
    pub enum_name: String,
    pub name: String,
    pub file_name: String,
    pub is_resident: i32,
    pub is_resident_tex: i32,
    pub is_resident_effect_tex: i32,
    pub version: i32,
    pub region: u32,
    pub product: u32,
    pub platform: u32,
}

impl AnimeBankData {
    /// The record as data: its fields in declaration order.
    pub open spec fn datum(&self) -> Datum {
        Datum::List(seq![
            Datum::I32(self.id),
            Datum::Str(self.enum_name@),
            Datum::Str(self.name@),
            Datum::Str(self.file_name@),
            Datum::I32(self.is_resident),
            Datum::I32(self.is_resident_tex),
            Datum::I32(self.is_resident_effect_tex),
            Datum::I32(self.version),
            Datum::U32(self.region),
            Datum::U32(self.product),
            Datum::U32(self.platform),
        ])
    }

    /// Whether `s` is the shape this kind is stored in.
    pub open spec fn is_shape(s: Shape) -> bool {
        &&& s is Composite
        &&& s->Composite_0@.len() == 11
        &&& s->Composite_0@[0] is I32
        &&& s->Composite_0@[1] is Str
        &&& s->Composite_0@[2] is Str
        &&& s->Composite_0@[3] is Str
        &&& s->Composite_0@[4] is I32
        &&& s->Composite_0@[5] is I32
        &&& s->Composite_0@[6] is I32
        &&& s->Composite_0@[7] is I32
        &&& s->Composite_0@[8] is U32
        &&& s->Composite_0@[9] is U32
        &&& s->Composite_0@[10] is U32
    }

    /// The shape this kind is stored in.
    pub fn shape() -> (r: Shape)
        ensures
            Self::is_shape(r),
    {
        let mut fs: Vec<Shape> = Vec::new();
        fs.push(Shape::I32);
        fs.push(Shape::Str);
        fs.push(Shape::Str);
        fs.push(Shape::Str);
        fs.push(Shape::I32);
        fs.push(Shape::I32);
        fs.push(Shape::I32);
        fs.push(Shape::I32);
        fs.push(Shape::U32);
        fs.push(Shape::U32);
        fs.push(Shape::U32);
        Shape::Composite(fs)
    }

    /// The record as a value to encode.
    pub fn to_value(&self) -> (r: Value)
        ensures
            r@ == self.datum(),
    {
        let mut items: Vec<Value> = Vec::new();
        items.push(Value::I32(self.id));
        items.push(Value::Str(self.enum_name.clone()));
        items.push(Value::Str(self.name.clone()));
        items.push(Value::Str(self.file_name.clone()));
        items.push(Value::I32(self.is_resident));
        items.push(Value::I32(self.is_resident_tex));
        items.push(Value::I32(self.is_resident_effect_tex));
        items.push(Value::I32(self.version));
        items.push(Value::U32(self.region));
        items.push(Value::U32(self.product));
        items.push(Value::U32(self.platform));
        proof {
            lemma_values_view_all(items@);
            assert(values_view(items@) =~= self.datum()->List_0);
        }
        Value::List(items)
    }

    /// The record a decoded value holds; `None` where no record of this kind
    /// is that value.
    pub fn from_value(v: &Value) -> (r: Option<Self>)
        ensures
            match r {
                Some(x) => x.datum() == v@,
                None => forall|x: Self| #[trigger] x.datum() != v@,
            },
    {
        let items = match v {
            Value::List(items) => items,
            _ => return None,
        };
        proof {
            lemma_values_view_all(items@);
        }
        if items.len() != 11 {
            return None;
        }
        let id = match &items[0] {
            Value::I32(x) => *x,
            _ => return None,
        };
        let enum_name = match &items[1] {
            Value::Str(s) => s.clone(),
            _ => return None,
        };
        let name = match &items[2] {
            Value::Str(s) => s.clone(),
            _ => return None,
        };
        let file_name = match &items[3] {
            Value::Str(s) => s.clone(),
            _ => return None,
        };
        let is_resident = match &items[4] {
            Value::I32(x) => *x,
            _ => return None,
        };
        let is_resident_tex = match &items[5] {
            Value::I32(x) => *x,
            _ => return None,
        };
        let is_resident_effect_tex = match &items[6] {
            Value::I32(x) => *x,
            _ => return None,
        };
        let version = match &items[7] {
            Value::I32(x) => *x,
            _ => return None,
        };
        let region = match &items[8] {
            Value::U32(x) => *x,
            _ => return None,
        };
        let product = match &items[9] {
            Value::U32(x) => *x,
            _ => return None,
        };
        let platform = match &items[10] {
            Value::U32(x) => *x,
            _ => return None,
        };
        let r = AnimeBankData { id, enum_name, name, file_name, is_resident, is_resident_tex, is_resident_effect_tex, version, region, product, platform };
        assert(r.datum()->List_0 =~= values_view(items@));
        Some(r)
    }
}

impl DatabaseRecord for AnimeBankData {
    open spec fn spec_id(&self) -> i32 {
        self.id
    }

    open spec fn spec_enum_name(&self) -> Seq<char> {
        self.enum_name@
    }

    fn database_id(&self) -> (r: i32) {
        self.id
    }

    fn database_enum_name(&self) -> (r: &str) {
        self.enum_name.as_str()
    }
}

/// An AI script.
pub struct AiData {
    pub id: i32,
    pub enum_name: String,
    pub ref_id: i32,
    pub name: CmlString,
    pub comment: CmlString,
    pub script_name: String,
    pub require_flag: i32,
    pub version: i32,
    pub region: u32,
    pub product: u32,
    pub platform: u32,
}

impl AiData {
    /// The record as data: its fields in declaration order.
    pub open spec fn datum(&self) -> Datum {
        Datum::List(seq![
            Datum::I32(self.id),
            Datum::Str(self.enum_name@),
            Datum::I32(self.ref_id),
            self.name.datum(),
            self.comment.datum(),
            Datum::Str(self.script_name@),
            Datum::I32(self.require_flag),
            Datum::I32(self.version),
            Datum::U32(self.region),
            Datum::U32(self.product),
            Datum::U32(self.platform),
        ])
    }

    /// Whether `s` is the shape this kind is stored in.
    pub open spec fn is_shape(s: Shape) -> bool {
        &&& s is Composite
        &&& s->Composite_0@.len() == 11
        &&& s->Composite_0@[0] is I32
        &&& s->Composite_0@[1] is Str
        &&& s->Composite_0@[2] is I32
        &&& CmlString::is_shape(s->Composite_0@[3])
        &&& CmlString::is_shape(s->Composite_0@[4])
        &&& s->Composite_0@[5] is Str
        &&& s->Composite_0@[6] is I32
        &&& s->Composite_0@[7] is I32
        &&& s->Composite_0@[8] is U32
        &&& s->Composite_0@[9] is U32
        &&& s->Composite_0@[10] is U32
    }

    /// The shape this kind is stored in.
    pub fn shape() -> (r: Shape)
        ensures
            Self::is_shape(r),
    {
        let mut fs: Vec<Shape> = Vec::new();
        fs.push(Shape::I32);
        fs.push(Shape::Str);
        fs.push(Shape::I32);
        fs.push(CmlString::shape());
        fs.push(CmlString::shape());
        fs.push(Shape::Str);
        fs.push(Shape::I32);
        fs.push(Shape::I32);
        fs.push(Shape::U32);
        fs.push(Shape::U32);
        fs.push(Shape::U32);
        Shape::Composite(fs)
    }

    /// The record as a value to encode.
    pub fn to_value(&self) -> (r: Value)
        ensures
            r@ == self.datum(),
    {
        let mut items: Vec<Value> = Vec::new();
        items.push(Value::I32(self.id));
        items.push(Value::Str(self.enum_name.clone()));
        items.push(Value::I32(self.ref_id));
        items.push(self.name.to_value());
        items.push(self.comment.to_value());
        items.push(Value::Str(self.script_name.clone()));
        items.push(Value::I32(self.require_flag));
        items.push(Value::I32(self.version));
        items.push(Value::U32(self.region));
        items.push(Value::U32(self.product));
        items.push(Value::U32(self.platform));
        proof {
            lemma_values_view_all(items@);
            assert(values_view(items@) =~= self.datum()->List_0);
        }
        Value::List(items)
    }

    /// The record a decoded value holds; `None` where no record of this kind
    /// is that value.
    pub fn from_value(v: &Value) -> (r: Option<Self>)
        ensures
            match r {
                Some(x) => x.datum() == v@,
                None => forall|x: Self| #[trigger] x.datum() != v@,
            },
    {
        let items = match v {
            Value::List(items) => items,
            _ => return None,
        };
        proof {
            lemma_values_view_all(items@);
        }
        if items.len() != 11 {
            return None;
        }
        let id = match &items[0] {
            Value::I32(x) => *x,
            _ => return None,
        };
        let enum_name = match &items[1] {
            Value::Str(s) => s.clone(),
            _ => return None,
        };
        let ref_id = match &items[2] {
            Value::I32(x) => *x,
            _ => return None,
        };
        let name = match CmlString::from_value(&items[3]) {
            Some(x) => x,
            None => {
                assert forall|x: Self| #[trigger] x.datum() != v@ by {
                    if x.datum() == v@ {
                        assert(x.datum()->List_0[3] == items@[3]@);
                    }
                }
                return None;
            },
        };
        let comment = match CmlString::from_value(&items[4]) {
            Some(x) => x,
            None => {
                assert forall|x: Self| #[trigger] x.datum() != v@ by {
                    if x.datum() == v@ {
                        assert(x.datum()->List_0[4] == items@[4]@);
                    }
                }
                return None;
            },
        };
        let script_name = match &items[5] {
            Value::Str(s) => s.clone(),
            _ => return None,
        };
        let require_flag = match &items[6] {
            Value::I32(x) => *x,
            _ => return None,
        };
        let version = match &items[7] {
            Value::I32(x) => *x,
            _ => return None,
        };
        let region = match &items[8] {
            Value::U32(x) => *x,
            _ => return None,
        };
        let product = match &items[9] {
            Value::U32(x) => *x,
            _ => return None,
        };
        let platform = match &items[10] {
            Value::U32(x) => *x,
            _ => return None,
        };
        let r = AiData { id, enum_name, ref_id, name, comment, script_name, require_flag, version, region, product, platform };
        assert(r.datum()->List_0 =~= values_view(items@));
        Some(r)
    }
}

impl DatabaseRecord for AiData {
    open spec fn spec_id(&self) -> i32 {
        self.id
    }

    open spec fn spec_enum_name(&self) -> Seq<char> {
        self.enum_name@
    }

    fn database_id(&self) -> (r: i32) {
        self.id
    }

    fn database_enum_name(&self) -> (r: &str) {
        self.enum_name.as_str()
    }
}

/// A music track.
pub struct BgmData {
    pub id: i32,
    pub enum_name: String,
    pub version: i32,
    pub region: u32,
    pub product: u32,
    pub platform: u32,
    pub file_name: String,
    pub folder_name: String,
    pub volume: i32,
    pub loop_start: i32,
    pub loop_end: i32,
    pub sample_rate: i32,
    pub name: CmlString,
}

impl BgmData {
    /// The record as data: its fields in declaration order.
    pub open spec fn datum(&self) -> Datum {
        Datum::List(seq![
            Datum::I32(self.id),
            Datum::Str(self.enum_name@),
            Datum::I32(self.version),
            Datum::U32(self.region),
            Datum::U32(self.product),
            Datum::U32(self.platform),
            Datum::Str(self.file_name@),
            Datum::Str(self.folder_name@),
            Datum::I32(self.volume),
            Datum::I32(self.loop_start),
            Datum::I32(self.loop_end),
            Datum::I32(self.sample_rate),
            self.name.datum(),
        ])
    }

    /// Whether `s` is the shape this kind is stored in.
    pub open spec fn is_shape(s: Shape) -> bool {
        &&& s is Composite
        &&& s->Composite_0@.len() == 13
        &&& s->Composite_0@[0] is I32
        &&& s->Composite_0@[1] is Str
        &&& s->Composite_0@[2] is I32
        &&& s->Composite_0@[3] is U32
        &&& s->Composite_0@[4] is U32
        &&& s->Composite_0@[5] is U32
        &&& s->Composite_0@[6] is Str
        &&& s->Composite_0@[7] is Str
        &&& s->Composite_0@[8] is I32
        &&& s->Composite_0@[9] is I32
        &&& s->Composite_0@[10] is I32
        &&& s->Composite_0@[11] is I32
        &&& CmlString::is_shape(s->Composite_0@[12])
    }

    /// The shape this kind is stored in.
    pub fn shape() -> (r: Shape)
        ensures
            Self::is_shape(r),
    {
        let mut fs: Vec<Shape> = Vec::new();
        fs.push(Shape::I32);
        fs.push(Shape::Str);
        fs.push(Shape::I32);
        fs.push(Shape::U32);
        fs.push(Shape::U32);
        fs.push(Shape::U32);
        fs.push(Shape::Str);
        fs.push(Shape::Str);
        fs.push(Shape::I32);
        fs.push(Shape::I32);
        fs.push(Shape::I32);
        fs.push(Shape::I32);
        fs.push(CmlString::shape());
        Shape::Composite(fs)
    }

    /// The record as a value to encode.
    pub fn to_value(&self) -> (r: Value)
        ensures
            r@ == self.datum(),
    {
        let mut items: Vec<Value> = Vec::new();
        items.push(Value::I32(self.id));
        items.push(Value::Str(self.enum_name.clone()));
        items.push(Value::I32(self.version));
        items.push(Value::U32(self.region));
        items.push(Value::U32(self.product));
        items.push(Value::U32(self.platform));
        items.push(Value::Str(self.file_name.clone()));
        items.push(Value::Str(self.folder_name.clone()));
        items.push(Value::I32(self.volume));
        items.push(Value::I32(self.loop_start));
        items.push(Value::I32(self.loop_end));
        items.push(Value::I32(self.sample_rate));
        items.push(self.name.to_value());
        proof {
            lemma_values_view_all(items@);
            assert(values_view(items@) =~= self.datum()->List_0);
        }
        Value::List(items)
    }

    /// The record a decoded value holds; `None` where no record of this kind
    /// is that value.
    pub fn from_value(v: &Value) -> (r: Option<Self>)
        ensures
            match r {
                Some(x) => x.datum() == v@,
                None => forall|x: Self| #[trigger] x.datum() != v@,
            },
    {
        let items = match v {
            Value::List(items) => items,
            _ => return None,
        };
        proof {
            lemma_values_view_all(items@);
        }
        if items.len() != 13 {
            return None;
        }
        let id = match &items[0] {
            Value::I32(x) => *x,
            _ => return None,
        };
        let enum_name = match &items[1] {
            Value::Str(s) => s.clone(),
            _ => return None,
        };
        let version = match &items[2] {
            Value::I32(x) => *x,
            _ => return None,
        };
        let region = match &items[3] {
            Value::U32(x) => *x,
            _ => return None,
        };
        let product = match &items[4] {
            Value::U32(x) => *x,
            _ => return None,
        };
        let platform = match &items[5] {
            Value::U32(x) => *x,
            _ => return None,
        };
        let file_name = match &items[6] {
            Value::Str(s) => s.clone(),
            _ => return None,
        };
        let folder_name = match &items[7] {
            Value::Str(s) => s.clone(),
            _ => return None,
        };
        let volume = match &items[8] {
            Value::I32(x) => *x,
            _ => return None,
        };
        let loop_start = match &items[9] {
            Value::I32(x) => *x,
            _ => return None,
        };
        let loop_end = match &items[10] {
            Value::I32(x) => *x,
            _ => return None,
        };
        let sample_rate = match &items[11] {
            Value::I32(x) => *x,
            _ => return None,
        };
        let name = match CmlString::from_value(&items[12]) {
            Some(x) => x,
            None => {
                assert forall|x: Self| #[trigger] x.datum() != v@ by {
                    if x.datum() == v@ {
                        assert(x.datum()->List_0[12] == items@[12]@);
                    }
                }
                return None;
            },
        };
        let r = BgmData { id, enum_name, version, region, product, platform, file_name, folder_name, volume, loop_start, loop_end, sample_rate, name };
        assert(r.datum()->List_0 =~= values_view(items@));
        Some(r)
    }
}

impl DatabaseRecord for BgmData {
    open spec fn spec_id(&self) -> i32 {
        self.id
    }

    open spec fn spec_enum_name(&self) -> Seq<char> {
        self.enum_name@
    }

    fn database_id(&self) -> (r: i32) {
        self.id
    }

    fn database_enum_name(&self) -> (r: &str) {
        self.enum_name.as_str()
    }
}

/// An animation and the banks it draws on.
pub struct AnimeData {
    pub id: i32,
    pub enum_name: String,
    pub comment: String,
    pub bank: [i32; 6],
    pub file_name: String,
    pub version: i32,
    pub region: u32,
    pub product: u32,
    pub platform: u32,
}

impl AnimeData {
    /// The record as data: its fields in declaration order.
    pub open spec fn datum(&self) -> Datum {
        Datum::List(seq![
            Datum::I32(self.id),
            Datum::Str(self.enum_name@),
            Datum::Str(self.comment@),
            i32s_datum(self.bank@),
            Datum::Str(self.file_name@),
            Datum::I32(self.version),
            Datum::U32(self.region),
            Datum::U32(self.product),
            Datum::U32(self.platform),
        ])
    }

    /// Whether `s` is the shape this kind is stored in.
    pub open spec fn is_shape(s: Shape) -> bool {
        &&& s is Composite
        &&& s->Composite_0@.len() == 9
        &&& s->Composite_0@[0] is I32
        &&& s->Composite_0@[1] is Str
        &&& s->Composite_0@[2] is Str
        &&& (s->Composite_0@[3] matches Shape::Array(n, el) && n == 6 && *el is I32)
        &&& s->Composite_0@[4] is Str
        &&& s->Composite_0@[5] is I32
        &&& s->Composite_0@[6] is U32
        &&& s->Composite_0@[7] is U32
        &&& s->Composite_0@[8] is U32
    }

    /// The shape this kind is stored in.
    pub fn shape() -> (r: Shape)
        ensures
            Self::is_shape(r),
    {
        let mut fs: Vec<Shape> = Vec::new();
        fs.push(Shape::I32);
        fs.push(Shape::Str);
        fs.push(Shape::Str);
        fs.push(Shape::Array(6, Box::new(Shape::I32)));
        fs.push(Shape::Str);
        fs.push(Shape::I32);
        fs.push(Shape::U32);
        fs.push(Shape::U32);
        fs.push(Shape::U32);
        Shape::Composite(fs)
    }

    /// The record as a value to encode.
    pub fn to_value(&self) -> (r: Value)
        ensures
            r@ == self.datum(),
    {
        let mut items: Vec<Value> = Vec::new();
        items.push(Value::I32(self.id));
        items.push(Value::Str(self.enum_name.clone()));
        items.push(Value::Str(self.comment.clone()));
        items.push(i32s_to_value(&self.bank));
        items.push(Value::Str(self.file_name.clone()));
        items.push(Value::I32(self.version));
        items.push(Value::U32(self.region));
        items.push(Value::U32(self.product));
        items.push(Value::U32(self.platform));
        proof {
            lemma_values_view_all(items@);
            assert(values_view(items@) =~= self.datum()->List_0);
        }
        Value::List(items)
    }

    /// The record a decoded value holds; `None` where no record of this kind
    /// is that value.
    pub fn from_value(v: &Value) -> (r: Option<Self>)
        ensures
            match r {
                Some(x) => x.datum() == v@,
                None => forall|x: Self| #[trigger] x.datum() != v@,
            },
    {
        let items = match v {
            Value::List(items) => items,
            _ => return None,
        };
        proof {
            lemma_values_view_all(items@);
        }
        if items.len() != 9 {
            return None;
        }
        let id = match &items[0] {
            Value::I32(x) => *x,
            _ => return None,
        };
        let enum_name = match &items[1] {
            Value::Str(s) => s.clone(),
            _ => return None,
        };
        let comment = match &items[2] {
            Value::Str(s) => s.clone(),
            _ => return None,
        };
        let bank = match i32s_from_value(&items[3]) {
            Some(x) => x,
            None => {
                assert forall|x: Self| #[trigger] x.datum() != v@ by {
                    if x.datum() == v@ {
                        assert(x.datum()->List_0[3] == items@[3]@);
                    }
                }
                return None;
            },
        };
        if bank.len() != 6 {
            assert forall|x: Self| #[trigger] x.datum() != v@ by {
                if x.datum() == v@ {
                    assert(x.datum()->List_0[3] == items@[3]@);
                    assert(i32s_datum(x.bank@)->List_0.len() == x.bank@.len());
                }
            }
            return None;
        }
        let bank = i32_array_6(&bank);
        let file_name = match &items[4] {
            Value::Str(s) => s.clone(),
            _ => return None,
        };
        let version = match &items[5] {
            Value::I32(x) => *x,
            _ => return None,
        };
        let region = match &items[6] {
            Value::U32(x) => *x,
            _ => return None,
        };
        let product = match &items[7] {
            Value::U32(x) => *x,
            _ => return None,
        };
        let platform = match &items[8] {
            Value::U32(x) => *x,
            _ => return None,
        };
        let r = AnimeData { id, enum_name, comment, bank, file_name, version, region, product, platform };
        assert(r.datum()->List_0 =~= values_view(items@));
        Some(r)
    }
}

impl DatabaseRecord for AnimeData {
    open spec fn spec_id(&self) -> i32 {
        self.id
    }

    open spec fn spec_enum_name(&self) -> Seq<char> {
        self.enum_name@
    }

    fn database_id(&self) -> (r: i32) {
        self.id
    }

    fn database_enum_name(&self) -> (r: &str) {
        self.enum_name.as_str()
    }
}

/// How likely each kind of innocent is to appear.
pub struct InnocentAffinityData {
    pub id: i32,
    pub name: String,
    pub index: i32,
    pub probability: [i32; 37],
    pub version: i32,
    pub region: u32,
    pub product: u32,
    pub platform: u32,
}

impl InnocentAffinityData {
    /// The record as data: its fields in declaration order.
    pub open spec fn datum(&self) -> Datum {
        Datum::List(seq![
            Datum::I32(self.id),
            Datum::Str(self.name@),
            Datum::I32(self.index),
            i32s_datum(self.probability@),
            Datum::I32(self.version),
            Datum::U32(self.region),
            Datum::U32(self.product),
            Datum::U32(self.platform),
        ])
    }

    /// Whether `s` is the shape this kind is stored in.
    pub open spec fn is_shape(s: Shape) -> bool {
        &&& s is Composite
        &&& s->Composite_0@.len() == 8
        &&& s->Composite_0@[0] is I32
        &&& s->Composite_0@[1] is Str
        &&& s->Composite_0@[2] is I32
        &&& (s->Composite_0@[3] matches Shape::Array(n, el) && n == 37 && *el is I32)
        &&& s->Composite_0@[4] is I32
        &&& s->Composite_0@[5] is U32
        &&& s->Composite_0@[6] is U32
        &&& s->Composite_0@[7] is U32
    }

    /// The shape this kind is stored in.
    pub fn shape() -> (r: Shape)
        ensures
            Self::is_shape(r),
    {
        let mut fs: Vec<Shape> = Vec::new();
        fs.push(Shape::I32);
        fs.push(Shape::Str);
        fs.push(Shape::I32);
        fs.push(Shape::Array(37, Box::new(Shape::I32)));
        fs.push(Shape::I32);
        fs.push(Shape::U32);
        fs.push(Shape::U32);
        fs.push(Shape::U32);
        Shape::Composite(fs)
    }

    /// The record as a value to encode.
    pub fn to_value(&self) -> (r: Value)
        ensures
            r@ == self.datum(),
    {
        let mut items: Vec<Value> = Vec::new();
        items.push(Value::I32(self.id));
        items.push(Value::Str(self.name.clone()));
        items.push(Value::I32(self.index));
        items.push(i32s_to_value(&self.probability));
        items.push(Value::I32(self.version));
        items.push(Value::U32(self.region));
        items.push(Value::U32(self.product));
        items.push(Value::U32(self.platform));
        proof {
            lemma_values_view_all(items@);
            assert(values_view(items@) =~= self.datum()->List_0);
        }
        Value::List(items)
    }

    /// The record a decoded value holds; `None` where no record of this kind
    /// is that value.
    pub fn from_value(v: &Value) -> (r: Option<Self>)
        ensures
            match r {
                Some(x) => x.datum() == v@,
                None => forall|x: Self| #[trigger] x.datum() != v@,
            },
    {
        let items = match v {
            Value::List(items) => items,
            _ => return None,
        };
        proof {
            lemma_values_view_all(items@);
        }
        if items.len() != 8 {
            return None;
        }
        let id = match &items[0] {
            Value::I32(x) => *x,
            _ => return None,
        };
        let name = match &items[1] {
            Value::Str(s) => s.clone(),
            _ => return None,
        };
        let index = match &items[2] {
            Value::I32(x) => *x,
            _ => return None,
        };
        let probability = match i32s_from_value(&items[3]) {
            Some(x) => x,
            None => {
                assert forall|x: Self| #[trigger] x.datum() != v@ by {
                    if x.datum() == v@ {
                        assert(x.datum()->List_0[3] == items@[3]@);
                    }
                }
                return None;
            },
        };
        if probability.len() != 37 {
            assert forall|x: Self| #[trigger] x.datum() != v@ by {
                if x.datum() == v@ {
                    assert(x.datum()->List_0[3] == items@[3]@);
                    assert(i32s_datum(x.probability@)->List_0.len() == x.probability@.len());
                }
            }
            return None;
        }
        let probability = i32_array_37(&probability);
        let version = match &items[4] {
            Value::I32(x) => *x,
            _ => return None,
        };
        let region = match &items[5] {
            Value::U32(x) => *x,
            _ => return None,
        };
        let product = match &items[6] {
            Value::U32(x) => *x,
            _ => return None,
        };
        let platform = match &items[7] {
            Value::U32(x) => *x,
            _ => return None,
        };
        let r = InnocentAffinityData { id, name, index, probability, version, region, product, platform };
        assert(r.datum()->List_0 =~= values_view(items@));
        Some(r)
    }
}

impl DatabaseRecord for InnocentAffinityData {
    open spec fn spec_id(&self) -> i32 {
        self.id
    }

    open spec fn spec_enum_name(&self) -> Seq<char> {
        Seq::empty()
    }

    fn database_id(&self) -> (r: i32) {
        self.id
    }

    fn database_enum_name(&self) -> (r: &str) {
        proof {
            reveal_strlit("");
        }
        ""
    }
}

/// One row of an action's area map.
pub struct MapLine {
    pub check: i32,
    pub column: [i32; 21],
}

impl MapLine {
    /// The record as data: its fields in declaration order.
    pub open spec fn datum(&self) -> Datum {
        Datum::List(seq![
            Datum::I32(self.check),
            i32s_datum(self.column@),
        ])
    }

    /// Whether `s` is the shape this kind is stored in.
    pub open spec fn is_shape(s: Shape) -> bool {
        &&& s is Composite
        &&& s->Composite_0@.len() == 2
        &&& s->Composite_0@[0] is I32
        &&& (s->Composite_0@[1] matches Shape::Array(n, el) && n == 21 && *el is I32)
    }

    /// The shape this kind is stored in.
    pub fn shape() -> (r: Shape)
        ensures
            Self::is_shape(r),
    {
        let mut fs: Vec<Shape> = Vec::new();
        fs.push(Shape::I32);
        fs.push(Shape::Array(21, Box::new(Shape::I32)));
        Shape::Composite(fs)
    }

    /// The record as a value to encode.
    pub fn to_value(&self) -> (r: Value)
        ensures
            r@ == self.datum(),
    {
        let mut items: Vec<Value> = Vec::new();
        items.push(Value::I32(self.check));
        items.push(i32s_to_value(&self.column));
        proof {
            lemma_values_view_all(items@);
            assert(values_view(items@) =~= self.datum()->List_0);
        }
        Value::List(items)
    }

    /// The record a decoded value holds; `None` where no record of this kind
    /// is that value.
    pub fn from_value(v: &Value) -> (r: Option<Self>)
        ensures
            match r {
                Some(x) => x.datum() == v@,
                None => forall|x: Self| #[trigger] x.datum() != v@,
            },
    {
        let items = match v {
            Value::List(items) => items,
            _ => return None,
        };
        proof {
            lemma_values_view_all(items@);
        }
        if items.len() != 2 {
            return None;
        }
        let check = match &items[0] {
            Value::I32(x) => *x,
            _ => return None,
        };
        let column = match i32s_from_value(&items[1]) {
            Some(x) => x,
            None => {
                assert forall|x: Self| #[trigger] x.datum() != v@ by {
                    if x.datum() == v@ {
                        assert(x.datum()->List_0[1] == items@[1]@);
                    }
                }
                return None;
            },
        };
        if column.len() != 21 {
            assert forall|x: Self| #[trigger] x.datum() != v@ by {
                if x.datum() == v@ {
                    assert(x.datum()->List_0[1] == items@[1]@);
                    assert(i32s_datum(x.column@)->List_0.len() == x.column@.len());
                }
            }
            return None;
        }
        let column = i32_array_21(&column);
        let r = MapLine { check, column };
        assert(r.datum()->List_0 =~= values_view(items@));
        Some(r)
    }
}

/// The area an action covers.
pub struct ActMapData {
    pub id: i32,
    pub enum_name: String,
    pub name: String,
    pub range_type: i32,
    pub rot_type: i32,
    pub line: Vec<MapLine>,
    pub version: i32,
    pub region: u32,
    pub product: u32,
    pub platform: u32,
}

impl ActMapData {
    /// The record as data: its fields in declaration order.
    pub open spec fn datum(&self) -> Datum {
        Datum::List(seq![
            Datum::I32(self.id),
            Datum::Str(self.enum_name@),
            Datum::Str(self.name@),
            Datum::I32(self.range_type),
            Datum::I32(self.rot_type),
            map_line_list_datum(self.line@),
            Datum::I32(self.version),
            Datum::U32(self.region),
            Datum::U32(self.product),
            Datum::U32(self.platform),
        ])
    }

    /// Whether `s` is the shape this kind is stored in.
    pub open spec fn is_shape(s: Shape) -> bool {
        &&& s is Composite
        &&& s->Composite_0@.len() == 10
        &&& s->Composite_0@[0] is I32
        &&& s->Composite_0@[1] is Str
        &&& s->Composite_0@[2] is Str
        &&& s->Composite_0@[3] is I32
        &&& s->Composite_0@[4] is I32
        &&& (s->Composite_0@[5] matches Shape::Sequence(el) && MapLine::is_shape(*el))
        &&& s->Composite_0@[6] is I32
        &&& s->Composite_0@[7] is U32
        &&& s->Composite_0@[8] is U32
        &&& s->Composite_0@[9] is U32
    }

    /// The shape this kind is stored in.
    pub fn shape() -> (r: Shape)
        ensures
            Self::is_shape(r),
    {
        let mut fs: Vec<Shape> = Vec::new();
        fs.push(Shape::I32);
        fs.push(Shape::Str);
        fs.push(Shape::Str);
        fs.push(Shape::I32);
        fs.push(Shape::I32);
        fs.push(Shape::Sequence(Box::new(MapLine::shape())));
        fs.push(Shape::I32);
        fs.push(Shape::U32);
        fs.push(Shape::U32);
        fs.push(Shape::U32);
        Shape::Composite(fs)
    }

    /// The record as a value to encode.
    pub fn to_value(&self) -> (r: Value)
        ensures
            r@ == self.datum(),
    {
        let mut items: Vec<Value> = Vec::new();
        items.push(Value::I32(self.id));
        items.push(Value::Str(self.enum_name.clone()));
        items.push(Value::Str(self.name.clone()));
        items.push(Value::I32(self.range_type));
        items.push(Value::I32(self.rot_type));
        items.push(map_line_list_to_value(&self.line));
        items.push(Value::I32(self.version));
        items.push(Value::U32(self.region));
        items.push(Value::U32(self.product));
        items.push(Value::U32(self.platform));
        proof {
            lemma_values_view_all(items@);
            assert(values_view(items@) =~= self.datum()->List_0);
        }
        Value::List(items)
    }

    /// The record a decoded value holds; `None` where no record of this kind
    /// is that value.
    pub fn from_value(v: &Value) -> (r: Option<Self>)
        ensures
            match r {
                Some(x) => x.datum() == v@,
                None => forall|x: Self| #[trigger] x.datum() != v@,
            },
    {
        let items = match v {
            Value::List(items) => items,
            _ => return None,
        };
        proof {
            lemma_values_view_all(items@);
        }
        if items.len() != 10 {
            return None;
        }
        let id = match &items[0] {
            Value::I32(x) => *x,
            _ => return None,
        };
        let enum_name = match &items[1] {
            Value::Str(s) => s.clone(),
            _ => return None,
        };
        let name = match &items[2] {
            Value::Str(s) => s.clone(),
            _ => return None,
        };
        let range_type = match &items[3] {
            Value::I32(x) => *x,
            _ => return None,
        };
        let rot_type = match &items[4] {
            Value::I32(x) => *x,
            _ => return None,
        };
        let line = match map_line_list_from_value(&items[5]) {
            Some(x) => x,
            None => {
                assert forall|x: Self| #[trigger] x.datum() != v@ by {
                    if x.datum() == v@ {
                        assert(x.datum()->List_0[5] == items@[5]@);
                    }
                }
                return None;
            },
        };
        let version = match &items[6] {
            Value::I32(x) => *x,
            _ => return None,
        };
        let region = match &items[7] {
            Value::U32(x) => *x,
            _ => return None,
        };
        let product = match &items[8] {
            Value::U32(x) => *x,
            _ => return None,
        };
        let platform = match &items[9] {
            Value::U32(x) => *x,
            _ => return None,
        };
        let r = ActMapData { id, enum_name, name, range_type, rot_type, line, version, region, product, platform };
        assert(r.datum()->List_0 =~= values_view(items@));
        Some(r)
    }
}

impl DatabaseRecord for ActMapData {
    open spec fn spec_id(&self) -> i32 {
        self.id
    }

    open spec fn spec_enum_name(&self) -> Seq<char> {
        self.enum_name@
    }

    fn database_id(&self) -> (r: i32) {
        self.id
    }

    fn database_enum_name(&self) -> (r: &str) {
        self.enum_name.as_str()
    }
}

/// One rank of a job.
pub struct RankInfo {
    pub rank: i32,
    pub need_exp: i32,
    pub grow_param: [i32; 8],
    pub learn_evility_id: i32,
    pub open_flag: i32,
    pub character_id: i32,
}

impl RankInfo {
    /// The record as data: its fields in declaration order.
    pub open spec fn datum(&self) -> Datum {
        Datum::List(seq![
            Datum::I32(self.rank),
            Datum::I32(self.need_exp),
            i32s_datum(self.grow_param@),
            Datum::I32(self.learn_evility_id),
            Datum::I32(self.open_flag),
            Datum::I32(self.character_id),
        ])
    }

    /// Whether `s` is the shape this kind is stored in.
    pub open spec fn is_shape(s: Shape) -> bool {
        &&& s is Composite
        &&& s->Composite_0@.len() == 6
        &&& s->Composite_0@[0] is I32
        &&& s->Composite_0@[1] is I32
        &&& (s->Composite_0@[2] matches Shape::Array(n, el) && n == 8 && *el is I32)
        &&& s->Composite_0@[3] is I32
        &&& s->Composite_0@[4] is I32
        &&& s->Composite_0@[5] is I32
    }

    /// The shape this kind is stored in.
    pub fn shape() -> (r: Shape)
        ensures
            Self::is_shape(r),
    {
        let mut fs: Vec<Shape> = Vec::new();
        fs.push(Shape::I32);
        fs.push(Shape::I32);
        fs.push(Shape::Array(8, Box::new(Shape::I32)));
        fs.push(Shape::I32);
        fs.push(Shape::I32);
        fs.push(Shape::I32);
        Shape::Composite(fs)
    }

    /// The record as a value to encode.
    pub fn to_value(&self) -> (r: Value)
        ensures
            r@ == self.datum(),
    {
        let mut items: Vec<Value> = Vec::new();
        items.push(Value::I32(self.rank));
        items.push(Value::I32(self.need_exp));
        items.push(i32s_to_value(&self.grow_param));
        items.push(Value::I32(self.learn_evility_id));
        items.push(Value::I32(self.open_flag));
        items.push(Value::I32(self.character_id));
        proof {
            lemma_values_view_all(items@);
            assert(values_view(items@) =~= self.datum()->List_0);
        }
        Value::List(items)
    }

    /// The record a decoded value holds; `None` where no record of this kind
    /// is that value.
    pub fn from_value(v: &Value) -> (r: Option<Self>)
        ensures
            match r {
                Some(x) => x.datum() == v@,
                None => forall|x: Self| #[trigger] x.datum() != v@,
            },
    {
        let items = match v {
            Value::List(items) => items,
            _ => return None,
        };
        proof {
            lemma_values_view_all(items@);
        }
        if items.len() != 6 {
            return None;
        }
        let rank = match &items[0] {
            Value::I32(x) => *x,
            _ => return None,
        };
        let need_exp = match &items[1] {
            Value::I32(x) => *x,
            _ => return None,
        };
        let grow_param = match i32s_from_value(&items[2]) {
            Some(x) => x,
            None => {
                assert forall|x: Self| #[trigger] x.datum() != v@ by {
                    if x.datum() == v@ {
                        assert(x.datum()->List_0[2] == items@[2]@);
                    }
                }
                return None;
            },
        };
        if grow_param.len() != 8 {
            assert forall|x: Self| #[trigger] x.datum() != v@ by {
                if x.datum() == v@ {
                    assert(x.datum()->List_0[2] == items@[2]@);
                    assert(i32s_datum(x.grow_param@)->List_0.len() == x.grow_param@.len());
                }
            }
            return None;
        }
        let grow_param = i32_array_8(&grow_param);
        let learn_evility_id = match &items[3] {
            Value::I32(x) => *x,
            _ => return None,
        };
        let open_flag = match &items[4] {
            Value::I32(x) => *x,
            _ => return None,
        };
        let character_id = match &items[5] {
            Value::I32(x) => *x,
            _ => return None,
        };
        let r = RankInfo { rank, need_exp, grow_param, learn_evility_id, open_flag, character_id };
        assert(r.datum()->List_0 =~= values_view(items@));
        Some(r)
    }
}

/// A job and its ranks.
pub struct JobData {
    pub id: i32,
    pub enum_name: String,
    pub name: CmlString,
    pub open_flag: i32,
    pub is_make: i32,
    pub rank_info: Vec<RankInfo>,
    pub ico_race_select_cutin: i32,
    pub seq_race_select_class_name: i32,
    pub seq_race_select_class_name_right: i32,
    pub seq_race_select_rank_name_right: Vec<i32>,
    pub chara_make_cost_base: i32,
    pub chara_make_talent_cost_base: i32,
    pub master_on_flag: i32,
    pub ex_color_flags: Vec<i32>,
    pub version: i32,
    pub region: u32,
    pub product: u32,
    pub platform: u32,
}

impl JobData {
    /// The record as data: its fields in declaration order.
    pub open spec fn datum(&self) -> Datum {
        Datum::List(seq![
            Datum::I32(self.id),
            Datum::Str(self.enum_name@),
            self.name.datum(),
            Datum::I32(self.open_flag),
            Datum::I32(self.is_make),
            rank_info_list_datum(self.rank_info@),
            Datum::I32(self.ico_race_select_cutin),
            Datum::I32(self.seq_race_select_class_name),
            Datum::I32(self.seq_race_select_class_name_right),
            i32s_datum(self.seq_race_select_rank_name_right@),
            Datum::I32(self.chara_make_cost_base),
            Datum::I32(self.chara_make_talent_cost_base),
            Datum::I32(self.master_on_flag),
            i32s_datum(self.ex_color_flags@),
            Datum::I32(self.version),
            Datum::U32(self.region),
            Datum::U32(self.product),
            Datum::U32(self.platform),
        ])
    }

    /// Whether `s` is the shape this kind is stored in.
    pub open spec fn is_shape(s: Shape) -> bool {
        &&& s is Composite
        &&& s->Composite_0@.len() == 18
        &&& s->Composite_0@[0] is I32
        &&& s->Composite_0@[1] is Str
        &&& CmlString::is_shape(s->Composite_0@[2])
        &&& s->Composite_0@[3] is I32
        &&& s->Composite_0@[4] is I32
        &&& (s->Composite_0@[5] matches Shape::Sequence(el) && RankInfo::is_shape(*el))
        &&& s->Composite_0@[6] is I32
        &&& s->Composite_0@[7] is I32
        &&& s->Composite_0@[8] is I32
        &&& (s->Composite_0@[9] matches Shape::Sequence(el) && *el is I32)
        &&& s->Composite_0@[10] is I32
        &&& s->Composite_0@[11] is I32
        &&& s->Composite_0@[12] is I32
        &&& (s->Composite_0@[13] matches Shape::Sequence(el) && *el is I32)
        &&& s->Composite_0@[14] is I32
        &&& s->Composite_0@[15] is U32
        &&& s->Composite_0@[16] is U32
        &&& s->Composite_0@[17] is U32
    }

    /// The shape this kind is stored in.
    pub fn shape() -> (r: Shape)
        ensures
            Self::is_shape(r),
    {
        let mut fs: Vec<Shape> = Vec::new();
        fs.push(Shape::I32);
        fs.push(Shape::Str);
        fs.push(CmlString::shape());
        fs.push(Shape::I32);
        fs.push(Shape::I32);
        fs.push(Shape::Sequence(Box::new(RankInfo::shape())));
        fs.push(Shape::I32);
        fs.push(Shape::I32);
        fs.push(Shape::I32);
        fs.push(Shape::Sequence(Box::new(Shape::I32)));
        fs.push(Shape::I32);
        fs.push(Shape::I32);
        fs.push(Shape::I32);
        fs.push(Shape::Sequence(Box::new(Shape::I32)));
        fs.push(Shape::I32);
        fs.push(Shape::U32);
        fs.push(Shape::U32);
        fs.push(Shape::U32);
        Shape::Composite(fs)
    }

    /// The record as a value to encode.
    pub fn to_value(&self) -> (r: Value)
        ensures
            r@ == self.datum(),
    {
        let mut items: Vec<Value> = Vec::new();
        items.push(Value::I32(self.id));
        items.push(Value::Str(self.enum_name.clone()));
        items.push(self.name.to_value());
        items.push(Value::I32(self.open_flag));
        items.push(Value::I32(self.is_make));
        items.push(rank_info_list_to_value(&self.rank_info));
        items.push(Value::I32(self.ico_race_select_cutin));
        items.push(Value::I32(self.seq_race_select_class_name));
        items.push(Value::I32(self.seq_race_select_class_name_right));
        items.push(i32s_to_value(self.seq_race_select_rank_name_right.as_slice()));
        items.push(Value::I32(self.chara_make_cost_base));
        items.push(Value::I32(self.chara_make_talent_cost_base));
        items.push(Value::I32(self.master_on_flag));
        items.push(i32s_to_value(self.ex_color_flags.as_slice()));
        items.push(Value::I32(self.version));
        items.push(Value::U32(self.region));
        items.push(Value::U32(self.product));
        items.push(Value::U32(self.platform));
        proof {
            lemma_values_view_all(items@);
            assert(values_view(items@) =~= self.datum()->List_0);
        }
        Value::List(items)
    }

    /// The record a decoded value holds; `None` where no record of this kind
    /// is that value.
    pub fn from_value(v: &Value) -> (r: Option<Self>)
        ensures
            match r {
                Some(x) => x.datum() == v@,
                None => forall|x: Self| #[trigger] x.datum() != v@,
            },
    {
        let items = match v {
            Value::List(items) => items,
            _ => return None,
        };
        proof {
            lemma_values_view_all(items@);
        }
        if items.len() != 18 {
            return None;
        }
        let id = match &items[0] {
            Value::I32(x) => *x,
            _ => return None,
        };
        let enum_name = match &items[1] {
            Value::Str(s) => s.clone(),
            _ => return None,
        };
        let name = match CmlString::from_value(&items[2]) {
            Some(x) => x,
            None => {
                assert forall|x: Self| #[trigger] x.datum() != v@ by {
                    if x.datum() == v@ {
                        assert(x.datum()->List_0[2] == items@[2]@);
                    }
                }
                return None;
            },
        };
        let open_flag = match &items[3] {
            Value::I32(x) => *x,
            _ => return None,
        };
        let is_make = match &items[4] {
            Value::I32(x) => *x,
            _ => return None,
        };
        let rank_info = match rank_info_list_from_value(&items[5]) {
            Some(x) => x,
            None => {
                assert forall|x: Self| #[trigger] x.datum() != v@ by {
                    if x.datum() == v@ {
                        assert(x.datum()->List_0[5] == items@[5]@);
                    }
                }
                return None;
            },
        };
        let ico_race_select_cutin = match &items[6] {
            Value::I32(x) => *x,
            _ => return None,
        };
        let seq_race_select_class_name = match &items[7] {
            Value::I32(x) => *x,
            _ => return None,
        };
        let seq_race_select_class_name_right = match &items[8] {
            Value::I32(x) => *x,
            _ => return None,
        };
        let seq_race_select_rank_name_right = match i32s_from_value(&items[9]) {
            Some(x) => x,
            None => {
                assert forall|x: Self| #[trigger] x.datum() != v@ by {
                    if x.datum() == v@ {
                        assert(x.datum()->List_0[9] == items@[9]@);
                    }
                }
                return None;
            },
        };
        let chara_make_cost_base = match &items[10] {
            Value::I32(x) => *x,
            _ => return None,
        };
        let chara_make_talent_cost_base = match &items[11] {
            Value::I32(x) => *x,
            _ => return None,
        };
        let master_on_flag = match &items[12] {
            Value::I32(x) => *x,
            _ => return None,
        };
        let ex_color_flags = match i32s_from_value(&items[13]) {
            Some(x) => x,
            None => {
                assert forall|x: Self| #[trigger] x.datum() != v@ by {
                    if x.datum() == v@ {
                        assert(x.datum()->List_0[13] == items@[13]@);
                    }
                }
                return None;
            },
        };
        let version = match &items[14] {
            Value::I32(x) => *x,
            _ => return None,
        };
        let region = match &items[15] {
            Value::U32(x) => *x,
            _ => return None,
        };
        let product = match &items[16] {
            Value::U32(x) => *x,
            _ => return None,
        };
        let platform = match &items[17] {
            Value::U32(x) => *x,
            _ => return None,
        };
        let r = JobData { id, enum_name, name, open_flag, is_make, rank_info, ico_race_select_cutin, seq_race_select_class_name, seq_race_select_class_name_right, seq_race_select_rank_name_right, chara_make_cost_base, chara_make_talent_cost_base, master_on_flag, ex_color_flags, version, region, product, platform };
        assert(r.datum()->List_0 =~= values_view(items@));
        Some(r)
    }
}

impl DatabaseRecord for JobData {
    open spec fn spec_id(&self) -> i32 {
        self.id
    }

    open spec fn spec_enum_name(&self) -> Seq<char> {
        self.enum_name@
    }

    fn database_id(&self) -> (r: i32) {
        self.id
    }

    fn database_enum_name(&self) -> (r: &str) {
        self.enum_name.as_str()
    }
}

/// An evility a class learns, and at what level.
pub struct EvilityInfo {
    pub id: i32,
    pub learn_lv: i32,
}

impl EvilityInfo {
    /// The record as data: its fields in declaration order.
    pub open spec fn datum(&self) -> Datum {
        Datum::List(seq![
            Datum::I32(self.id),
            Datum::I32(self.learn_lv),
        ])
    }

    /// Whether `s` is the shape this kind is stored in.
    pub open spec fn is_shape(s: Shape) -> bool {
        &&& s is Composite
        &&& s->Composite_0@.len() == 2
        &&& s->Composite_0@[0] is I32
        &&& s->Composite_0@[1] is I32
    }

    /// The shape this kind is stored in.
    pub fn shape() -> (r: Shape)
        ensures
            Self::is_shape(r),
    {
        let mut fs: Vec<Shape> = Vec::new();
        fs.push(Shape::I32);
        fs.push(Shape::I32);
        Shape::Composite(fs)
    }

    /// The record as a value to encode.
    pub fn to_value(&self) -> (r: Value)
        ensures
            r@ == self.datum(),
    {
        let mut items: Vec<Value> = Vec::new();
        items.push(Value::I32(self.id));
        items.push(Value::I32(self.learn_lv));
        proof {
            lemma_values_view_all(items@);
            assert(values_view(items@) =~= self.datum()->List_0);
        }
        Value::List(items)
    }

    /// The record a decoded value holds; `None` where no record of this kind
    /// is that value.
    pub fn from_value(v: &Value) -> (r: Option<Self>)
        ensures
            match r {
                Some(x) => x.datum() == v@,
                None => forall|x: Self| #[trigger] x.datum() != v@,
            },
    {
        let items = match v {
            Value::List(items) => items,
            _ => return None,
        };
        proof {
            lemma_values_view_all(items@);
        }
        if items.len() != 2 {
            return None;
        }
        let id = match &items[0] {
            Value::I32(x) => *x,
            _ => return None,
        };
        let learn_lv = match &items[1] {
            Value::I32(x) => *x,
            _ => return None,
        };
        let r = EvilityInfo { id, learn_lv };
        assert(r.datum()->List_0 =~= values_view(items@));
        Some(r)
    }
}

/// A character class.
pub struct CharaClassData {
    pub id: i32,
    pub enum_name: String,
    pub name: String,
    pub ref_id: i32,
    pub chara_id: i32,
    pub equip_id: [i32; 4],
    pub extra_color_flag: i32,
    pub item_world_default_ai_type: i32,
    pub evility: Vec<EvilityInfo>,
    pub version: i32,
    pub region: u32,
    pub product: u32,
    pub platform: u32,
}

impl CharaClassData {
    /// The record as data: its fields in declaration order.
    pub open spec fn datum(&self) -> Datum {
        Datum::List(seq![
            Datum::I32(self.id),
            Datum::Str(self.enum_name@),
            Datum::Str(self.name@),
            Datum::I32(self.ref_id),
            Datum::I32(self.chara_id),
            i32s_datum(self.equip_id@),
            Datum::I32(self.extra_color_flag),
            Datum::I32(self.item_world_default_ai_type),
            evility_info_list_datum(self.evility@),
            Datum::I32(self.version),
            Datum::U32(self.region),
            Datum::U32(self.product),
            Datum::U32(self.platform),
        ])
    }

    /// Whether `s` is the shape this kind is stored in.
    pub open spec fn is_shape(s: Shape) -> bool {
        &&& s is Composite
        &&& s->Composite_0@.len() == 13
        &&& s->Composite_0@[0] is I32
        &&& s->Composite_0@[1] is Str
        &&& s->Composite_0@[2] is Str
        &&& s->Composite_0@[3] is I32
        &&& s->Composite_0@[4] is I32
        &&& (s->Composite_0@[5] matches Shape::Array(n, el) && n == 4 && *el is I32)
        &&& s->Composite_0@[6] is I32
        &&& s->Composite_0@[7] is I32
        &&& (s->Composite_0@[8] matches Shape::Sequence(el) && EvilityInfo::is_shape(*el))
        &&& s->Composite_0@[9] is I32
        &&& s->Composite_0@[10] is U32
        &&& s->Composite_0@[11] is U32
        &&& s->Composite_0@[12] is U32
    }

    /// The shape this kind is stored in.
    pub fn shape() -> (r: Shape)
        ensures
            Self::is_shape(r),
    {
        let mut fs: Vec<Shape> = Vec::new();
        fs.push(Shape::I32);
        fs.push(Shape::Str);
        fs.push(Shape::Str);
        fs.push(Shape::I32);
        fs.push(Shape::I32);
        fs.push(Shape::Array(4, Box::new(Shape::I32)));
        fs.push(Shape::I32);
        fs.push(Shape::I32);
        fs.push(Shape::Sequence(Box::new(EvilityInfo::shape())));
        fs.push(Shape::I32);
        fs.push(Shape::U32);
        fs.push(Shape::U32);
        fs.push(Shape::U32);
        Shape::Composite(fs)
    }

    /// The record as a value to encode.
    pub fn to_value(&self) -> (r: Value)
        ensures
            r@ == self.datum(),
    {
        let mut items: Vec<Value> = Vec::new();
        items.push(Value::I32(self.id));
        items.push(Value::Str(self.enum_name.clone()));
        items.push(Value::Str(self.name.clone()));
        items.push(Value::I32(self.ref_id));
        items.push(Value::I32(self.chara_id));
        items.push(i32s_to_value(&self.equip_id));
        items.push(Value::I32(self.extra_color_flag));
        items.push(Value::I32(self.item_world_default_ai_type));
        items.push(evility_info_list_to_value(&self.evility));
        items.push(Value::I32(self.version));
        items.push(Value::U32(self.region));
        items.push(Value::U32(self.product));
        items.push(Value::U32(self.platform));
        proof {
            lemma_values_view_all(items@);
            assert(values_view(items@) =~= self.datum()->List_0);
        }
        Value::List(items)
    }

    /// The record a decoded value holds; `None` where no record of this kind
    /// is that value.
    pub fn from_value(v: &Value) -> (r: Option<Self>)
        ensures
            match r {
                Some(x) => x.datum() == v@,
                None => forall|x: Self| #[trigger] x.datum() != v@,
            },
    {
        let items = match v {
            Value::List(items) => items,
            _ => return None,
        };
        proof {
            lemma_values_view_all(items@);
        }
        if items.len() != 13 {
            return None;
        }
        let id = match &items[0] {
            Value::I32(x) => *x,
            _ => return None,
        };
        let enum_name = match &items[1] {
            Value::Str(s) => s.clone(),
            _ => return None,
        };
        let name = match &items[2] {
            Value::Str(s) => s.clone(),
            _ => return None,
        };
        let ref_id = match &items[3] {
            Value::I32(x) => *x,
            _ => return None,
        };
        let chara_id = match &items[4] {
            Value::I32(x) => *x,
            _ => return None,
        };
        let equip_id = match i32s_from_value(&items[5]) {
            Some(x) => x,
            None => {
                assert forall|x: Self| #[trigger] x.datum() != v@ by {
                    if x.datum() == v@ {
                        assert(x.datum()->List_0[5] == items@[5]@);
                    }
                }
                return None;
            },
        };
        if equip_id.len() != 4 {
            assert forall|x: Self| #[trigger] x.datum() != v@ by {
                if x.datum() == v@ {
                    assert(x.datum()->List_0[5] == items@[5]@);
                    assert(i32s_datum(x.equip_id@)->List_0.len() == x.equip_id@.len());
                }
            }
            return None;
        }
        let equip_id = i32_array_4(&equip_id);
        let extra_color_flag = match &items[6] {
            Value::I32(x) => *x,
            _ => return None,
        };
        let item_world_default_ai_type = match &items[7] {
            Value::I32(x) => *x,
            _ => return None,
        };
        let evility = match evility_info_list_from_value(&items[8]) {
            Some(x) => x,
            None => {
                assert forall|x: Self| #[trigger] x.datum() != v@ by {
                    if x.datum() == v@ {
                        assert(x.datum()->List_0[8] == items@[8]@);
                    }
                }
                return None;
            },
        };
        let version = match &items[9] {
            Value::I32(x) => *x,
            _ => return None,
        };
        let region = match &items[10] {
            Value::U32(x) => *x,
            _ => return None,
        };
        let product = match &items[11] {
            Value::U32(x) => *x,
            _ => return None,
        };
        let platform = match &items[12] {
            Value::U32(x) => *x,
            _ => return None,
        };
        let r = CharaClassData { id, enum_name, name, ref_id, chara_id, equip_id, extra_color_flag, item_world_default_ai_type, evility, version, region, product, platform };
        assert(r.datum()->List_0 =~= values_view(items@));
        Some(r)
    }
}

impl DatabaseRecord for CharaClassData {
    open spec fn spec_id(&self) -> i32 {
        self.id
    }

    open spec fn spec_enum_name(&self) -> Seq<char> {
        self.enum_name@
    }

    fn database_id(&self) -> (r: i32) {
        self.id
    }

    fn database_enum_name(&self) -> (r: &str) {
        self.enum_name.as_str()
    }
}

/// An action a character learns, and at what level.
pub struct ActInfo {
    pub id: i32,
    pub learn_lv: i32,
}

impl ActInfo {
    /// The record as data: its fields in declaration order.
    pub open spec fn datum(&self) -> Datum {
        Datum::List(seq![
            Datum::I32(self.id),
            Datum::I32(self.learn_lv),
        ])
    }

    /// Whether `s` is the shape this kind is stored in.
    pub open spec fn is_shape(s: Shape) -> bool {
        &&& s is Composite
        &&& s->Composite_0@.len() == 2
        &&& s->Composite_0@[0] is I32
        &&& s->Composite_0@[1] is I32
    }

    /// The shape this kind is stored in.
    pub fn shape() -> (r: Shape)
        ensures
            Self::is_shape(r),
    {
        let mut fs: Vec<Shape> = Vec::new();
        fs.push(Shape::I32);
        fs.push(Shape::I32);
        Shape::Composite(fs)
    }

    /// The record as a value to encode.
    pub fn to_value(&self) -> (r: Value)
        ensures
            r@ == self.datum(),
    {
        let mut items: Vec<Value> = Vec::new();
        items.push(Value::I32(self.id));
        items.push(Value::I32(self.learn_lv));
        proof {
            lemma_values_view_all(items@);
            assert(values_view(items@) =~= self.datum()->List_0);
        }
        Value::List(items)
    }

    /// The record a decoded value holds; `None` where no record of this kind
    /// is that value.
    pub fn from_value(v: &Value) -> (r: Option<Self>)
        ensures
            match r {
                Some(x) => x.datum() == v@,
                None => forall|x: Self| #[trigger] x.datum() != v@,
            },
    {
        let items = match v {
            Value::List(items) => items,
            _ => return None,
        };
        proof {
            lemma_values_view_all(items@);
        }
        if items.len() != 2 {
            return None;
        }
        let id = match &items[0] {
            Value::I32(x) => *x,
            _ => return None,
        };
        let learn_lv = match &items[1] {
            Value::I32(x) => *x,
            _ => return None,
        };
        let r = ActInfo { id, learn_lv };
        assert(r.datum()->List_0 =~= values_view(items@));
        Some(r)
    }
}

/// A character's encyclopedia entry.
pub struct CharaZukanData {
    pub id: i32,
    pub chara_id: i32,
    pub name: CmlString,
    pub use_on_flag: Vec<i32>,
    pub use_off_flag: Vec<i32>,
    pub cond_on_flag: Vec<i32>,
    pub cond_off_flag: Vec<i32>,
    pub kind: i32,
    pub is_model: i32,
    pub description: Vec<CmlString>,
    pub version: i32,
    pub region: u32,
    pub product: u32,
    pub platform: u32,
}

impl CharaZukanData {
    /// The record as data: its fields in declaration order.
    pub open spec fn datum(&self) -> Datum {
        Datum::List(seq![
            Datum::I32(self.id),
            Datum::I32(self.chara_id),
            self.name.datum(),
            i32s_datum(self.use_on_flag@),
            i32s_datum(self.use_off_flag@),
            i32s_datum(self.cond_on_flag@),
            i32s_datum(self.cond_off_flag@),
            Datum::I32(self.kind),
            Datum::I32(self.is_model),
            cml_string_list_datum(self.description@),
            Datum::I32(self.version),
            Datum::U32(self.region),
            Datum::U32(self.product),
            Datum::U32(self.platform),
        ])
    }

    /// Whether `s` is the shape this kind is stored in.
    pub open spec fn is_shape(s: Shape) -> bool {
        &&& s is Composite
        &&& s->Composite_0@.len() == 14
        &&& s->Composite_0@[0] is I32
        &&& s->Composite_0@[1] is I32
        &&& CmlString::is_shape(s->Composite_0@[2])
        &&& (s->Composite_0@[3] matches Shape::Sequence(el) && *el is I32)
        &&& (s->Composite_0@[4] matches Shape::Sequence(el) && *el is I32)
        &&& (s->Composite_0@[5] matches Shape::Sequence(el) && *el is I32)
        &&& (s->Composite_0@[6] matches Shape::Sequence(el) && *el is I32)
        &&& s->Composite_0@[7] is I32
        &&& s->Composite_0@[8] is I32
        &&& (s->Composite_0@[9] matches Shape::Sequence(el) && CmlString::is_shape(*el))
        &&& s->Composite_0@[10] is I32
        &&& s->Composite_0@[11] is U32
        &&& s->Composite_0@[12] is U32
        &&& s->Composite_0@[13] is U32
    }

    /// The shape this kind is stored in.
    pub fn shape() -> (r: Shape)
        ensures
            Self::is_shape(r),
    {
        let mut fs: Vec<Shape> = Vec::new();
        fs.push(Shape::I32);
        fs.push(Shape::I32);
        fs.push(CmlString::shape());
        fs.push(Shape::Sequence(Box::new(Shape::I32)));
        fs.push(Shape::Sequence(Box::new(Shape::I32)));
        fs.push(Shape::Sequence(Box::new(Shape::I32)));
        fs.push(Shape::Sequence(Box::new(Shape::I32)));
        fs.push(Shape::I32);
        fs.push(Shape::I32);
        fs.push(Shape::Sequence(Box::new(CmlString::shape())));
        fs.push(Shape::I32);
        fs.push(Shape::U32);
        fs.push(Shape::U32);
        fs.push(Shape::U32);
        Shape::Composite(fs)
    }

    /// The record as a value to encode.
    pub fn to_value(&self) -> (r: Value)
        ensures
            r@ == self.datum(),
    {
        let mut items: Vec<Value> = Vec::new();
        items.push(Value::I32(self.id));
        items.push(Value::I32(self.chara_id));
        items.push(self.name.to_value());
        items.push(i32s_to_value(self.use_on_flag.as_slice()));
        items.push(i32s_to_value(self.use_off_flag.as_slice()));
        items.push(i32s_to_value(self.cond_on_flag.as_slice()));
        items.push(i32s_to_value(self.cond_off_flag.as_slice()));
        items.push(Value::I32(self.kind));
        items.push(Value::I32(self.is_model));
        items.push(cml_string_list_to_value(&self.description));
        items.push(Value::I32(self.version));
        items.push(Value::U32(self.region));
        items.push(Value::U32(self.product));
        items.push(Value::U32(self.platform));
        proof {
            lemma_values_view_all(items@);
            assert(values_view(items@) =~= self.datum()->List_0);
        }
        Value::List(items)
    }

    /// The record a decoded value holds; `None` where no record of this kind
    /// is that value.
    pub fn from_value(v: &Value) -> (r: Option<Self>)
        ensures
            match r {
                Some(x) => x.datum() == v@,
                None => forall|x: Self| #[trigger] x.datum() != v@,
            },
    {
        let items = match v {
            Value::List(items) => items,
            _ => return None,
        };
        proof {
            lemma_values_view_all(items@);
        }
        if items.len() != 14 {
            return None;
        }
        let id = match &items[0] {
            Value::I32(x) => *x,
            _ => return None,
        };
        let chara_id = match &items[1] {
            Value::I32(x) => *x,
            _ => return None,
        };
        let name = match CmlString::from_value(&items[2]) {
            Some(x) => x,
            None => {
                assert forall|x: Self| #[trigger] x.datum() != v@ by {
                    if x.datum() == v@ {
                        assert(x.datum()->List_0[2] == items@[2]@);
                    }
                }
                return None;
            },
        };
        let use_on_flag = match i32s_from_value(&items[3]) {
            Some(x) => x,
            None => {
                assert forall|x: Self| #[trigger] x.datum() != v@ by {
                    if x.datum() == v@ {
                        assert(x.datum()->List_0[3] == items@[3]@);
                    }
                }
                return None;
            },
        };
        let use_off_flag = match i32s_from_value(&items[4]) {
            Some(x) => x,
            None => {
                assert forall|x: Self| #[trigger] x.datum() != v@ by {
                    if x.datum() == v@ {
                        assert(x.datum()->List_0[4] == items@[4]@);
                    }
                }
                return None;
            },
        };
        let cond_on_flag = match i32s_from_value(&items[5]) {
            Some(x) => x,
            None => {
                assert forall|x: Self| #[trigger] x.datum() != v@ by {
                    if x.datum() == v@ {
                        assert(x.datum()->List_0[5] == items@[5]@);
                    }
                }
                return None;
            },
        };
        let cond_off_flag = match i32s_from_value(&items[6]) {
            Some(x) => x,
            None => {
                assert forall|x: Self| #[trigger] x.datum() != v@ by {
                    if x.datum() == v@ {
                        assert(x.datum()->List_0[6] == items@[6]@);
                    }
                }
                return None;
            },
        };
        let kind = match &items[7] {
            Value::I32(x) => *x,
            _ => return None,
        };
        let is_model = match &items[8] {
            Value::I32(x) => *x,
            _ => return None,
        };
        let description = match cml_string_list_from_value(&items[9]) {
            Some(x) => x,
            None => {
                assert forall|x: Self| #[trigger] x.datum() != v@ by {
                    if x.datum() == v@ {
                        assert(x.datum()->List_0[9] == items@[9]@);
                    }
                }
                return None;
            },
        };
        let version = match &items[10] {
            Value::I32(x) => *x,
            _ => return None,
        };
        let region = match &items[11] {
            Value::U32(x) => *x,
            _ => return None,
        };
        let product = match &items[12] {
            Value::U32(x) => *x,
            _ => return None,
        };
        let platform = match &items[13] {
            Value::U32(x) => *x,
            _ => return None,
        };
        let r = CharaZukanData { id, chara_id, name, use_on_flag, use_off_flag, cond_on_flag, cond_off_flag, kind, is_model, description, version, region, product, platform };
        assert(r.datum()->List_0 =~= values_view(items@));
        Some(r)
    }
}

impl DatabaseRecord for CharaZukanData {
    open spec fn spec_id(&self) -> i32 {
        self.id
    }

    open spec fn spec_enum_name(&self) -> Seq<char> {
        Seq::empty()
    }

    fn database_id(&self) -> (r: i32) {
        self.id
    }

    fn database_enum_name(&self) -> (r: &str) {
        proof {
            reveal_strlit("");
        }
        ""
    }
}

/// A stat-boosting drug.
pub struct DopingData {
    pub id: i32,
    pub enum_name: String,
    pub ini_name: String,
    pub comment: String,
    pub name: CmlString,
    pub help: CmlString,
    pub effect: i32,
    pub kind: i32,
    pub data1: i32,
    pub data2: i32,
    pub cond_on_flag: Vec<i32>,
    pub cond_off_flag: Vec<i32>,
    pub icon_seq: i32,
    pub effect_seq: i32,
    pub drug_inner_seq1: i32,
    pub drug_inner_seq2: i32,
    pub drug_inner_seq3: i32,
    pub tube_seq: i32,
    pub drug_seq: i32,
    pub icon_id: i32,
    pub version: i32,
    pub region: u32,
    pub product: u32,
    pub platform: u32,
}

impl DopingData {
    /// The record as data: its fields in declaration order.
    pub open spec fn datum(&self) -> Datum {
        Datum::List(seq![
            Datum::I32(self.id),
            Datum::Str(self.enum_name@),
            Datum::Str(self.ini_name@),
            Datum::Str(self.comment@),
            self.name.datum(),
            self.help.datum(),
            Datum::I32(self.effect),
            Datum::I32(self.kind),
            Datum::I32(self.data1),
            Datum::I32(self.data2),
            i32s_datum(self.cond_on_flag@),
            i32s_datum(self.cond_off_flag@),
            Datum::I32(self.icon_seq),
            Datum::I32(self.effect_seq),
            Datum::I32(self.drug_inner_seq1),
            Datum::I32(self.drug_inner_seq2),
            Datum::I32(self.drug_inner_seq3),
            Datum::I32(self.tube_seq),
            Datum::I32(self.drug_seq),
            Datum::I32(self.icon_id),
            Datum::I32(self.version),
            Datum::U32(self.region),
            Datum::U32(self.product),
            Datum::U32(self.platform),
        ])
    }

    /// Whether `s` is the shape this kind is stored in.
    pub open spec fn is_shape(s: Shape) -> bool {
        &&& s is Composite
        &&& s->Composite_0@.len() == 24
        &&& s->Composite_0@[0] is I32
        &&& s->Composite_0@[1] is Str
        &&& s->Composite_0@[2] is Str
        &&& s->Composite_0@[3] is Str
        &&& CmlString::is_shape(s->Composite_0@[4])
        &&& CmlString::is_shape(s->Composite_0@[5])
        &&& s->Composite_0@[6] is I32
        &&& s->Composite_0@[7] is I32
        &&& s->Composite_0@[8] is I32
        &&& s->Composite_0@[9] is I32
        &&& (s->Composite_0@[10] matches Shape::Sequence(el) && *el is I32)
        &&& (s->Composite_0@[11] matches Shape::Sequence(el) && *el is I32)
        &&& s->Composite_0@[12] is I32
        &&& s->Composite_0@[13] is I32
        &&& s->Composite_0@[14] is I32
        &&& s->Composite_0@[15] is I32
        &&& s->Composite_0@[16] is I32
        &&& s->Composite_0@[17] is I32
        &&& s->Composite_0@[18] is I32
        &&& s->Composite_0@[19] is I32
        &&& s->Composite_0@[20] is I32
        &&& s->Composite_0@[21] is U32
        &&& s->Composite_0@[22] is U32
        &&& s->Composite_0@[23] is U32
    }

    /// The shape this kind is stored in.
    pub fn shape() -> (r: Shape)
        ensures
            Self::is_shape(r),
    {
        let mut fs: Vec<Shape> = Vec::new();
        fs.push(Shape::I32);
        fs.push(Shape::Str);
        fs.push(Shape::Str);
        fs.push(Shape::Str);
        fs.push(CmlString::shape());
        fs.push(CmlString::shape());
        fs.push(Shape::I32);
        fs.push(Shape::I32);
        fs.push(Shape::I32);
        fs.push(Shape::I32);
        fs.push(Shape::Sequence(Box::new(Shape::I32)));
        fs.push(Shape::Sequence(Box::new(Shape::I32)));
        fs.push(Shape::I32);
        fs.push(Shape::I32);
        fs.push(Shape::I32);
        fs.push(Shape::I32);
        fs.push(Shape::I32);
        fs.push(Shape::I32);
        fs.push(Shape::I32);
        fs.push(Shape::I32);
        fs.push(Shape::I32);
        fs.push(Shape::U32);
        fs.push(Shape::U32);
        fs.push(Shape::U32);
        Shape::Composite(fs)
    }

    /// The record as a value to encode.
    pub fn to_value(&self) -> (r: Value)
        ensures
            r@ == self.datum(),
    {
        let mut items: Vec<Value> = Vec::new();
        items.push(Value::I32(self.id));
        items.push(Value::Str(self.enum_name.clone()));
        items.push(Value::Str(self.ini_name.clone()));
        items.push(Value::Str(self.comment.clone()));
        items.push(self.name.to_value());
        items.push(self.help.to_value());
        items.push(Value::I32(self.effect));
        items.push(Value::I32(self.kind));
        items.push(Value::I32(self.data1));
        items.push(Value::I32(self.data2));
        items.push(i32s_to_value(self.cond_on_flag.as_slice()));
        items.push(i32s_to_value(self.cond_off_flag.as_slice()));
        items.push(Value::I32(self.icon_seq));
        items.push(Value::I32(self.effect_seq));
        items.push(Value::I32(self.drug_inner_seq1));
        items.push(Value::I32(self.drug_inner_seq2));
        items.push(Value::I32(self.drug_inner_seq3));
        items.push(Value::I32(self.tube_seq));
        items.push(Value::I32(self.drug_seq));
        items.push(Value::I32(self.icon_id));
        items.push(Value::I32(self.version));
        items.push(Value::U32(self.region));
        items.push(Value::U32(self.product));
        items.push(Value::U32(self.platform));
        proof {
            lemma_values_view_all(items@);
            assert(values_view(items@) =~= self.datum()->List_0);
        }
        Value::List(items)
    }

    /// The record a decoded value holds; `None` where no record of this kind
    /// is that value.
    #[verifier::rlimit(80)]
    pub fn from_value(v: &Value) -> (r: Option<Self>)
        ensures
            match r {
                Some(x) => x.datum() == v@,
                None => forall|x: Self| #[trigger] x.datum() != v@,
            },
    {
        let items = match v {
            Value::List(items) => items,
            _ => return None,
        };
        proof {
            lemma_values_view_all(items@);
        }
        if items.len() != 24 {
            return None;
        }
        let id = match &items[0] {
            Value::I32(x) => *x,
            _ => return None,
        };
        let enum_name = match &items[1] {
            Value::Str(s) => s.clone(),
            _ => return None,
        };
        let ini_name = match &items[2] {
            Value::Str(s) => s.clone(),
            _ => return None,
        };
        let comment = match &items[3] {
            Value::Str(s) => s.clone(),
            _ => return None,
        };
        let name = match CmlString::from_value(&items[4]) {
            Some(x) => x,
            None => {
                assert forall|x: Self| #[trigger] x.datum() != v@ by {
                    if x.datum() == v@ {
                        assert(x.datum()->List_0[4] == items@[4]@);
                    }
                }
                return None;
            },
        };
        let help = match CmlString::from_value(&items[5]) {
            Some(x) => x,
            None => {
                assert forall|x: Self| #[trigger] x.datum() != v@ by {
                    if x.datum() == v@ {
                        assert(x.datum()->List_0[5] == items@[5]@);
                    }
                }
                return None;
            },
        };
        let effect = match &items[6] {
            Value::I32(x) => *x,
            _ => return None,
        };
        let kind = match &items[7] {
            Value::I32(x) => *x,
            _ => return None,
        };
        let data1 = match &items[8] {
            Value::I32(x) => *x,
            _ => return None,
        };
        let data2 = match &items[9] {
            Value::I32(x) => *x,
            _ => return None,
        };
        let cond_on_flag = match i32s_from_value(&items[10]) {
            Some(x) => x,
            None => {
                assert forall|x: Self| #[trigger] x.datum() != v@ by {
                    if x.datum() == v@ {
                        assert(x.datum()->List_0[10] == items@[10]@);
                    }
                }
                return None;
            },
        };
        let cond_off_flag = match i32s_from_value(&items[11]) {
            Some(x) => x,
            None => {
                assert forall|x: Self| #[trigger] x.datum() != v@ by {
                    if x.datum() == v@ {
                        assert(x.datum()->List_0[11] == items@[11]@);
                    }
                }
                return None;
            },
        };
        let icon_seq = match &items[12] {
            Value::I32(x) => *x,
            _ => return None,
        };
        let effect_seq = match &items[13] {
            Value::I32(x) => *x,
            _ => return None,
        };
        let drug_inner_seq1 = match &items[14] {
            Value::I32(x) => *x,
            _ => return None,
        };
        let drug_inner_seq2 = match &items[15] {
            Value::I32(x) => *x,
            _ => return None,
        };
        let drug_inner_seq3 = match &items[16] {
            Value::I32(x) => *x,
            _ => return None,
        };
        let tube_seq = match &items[17] {
            Value::I32(x) => *x,
            _ => return None,
        };
        let drug_seq = match &items[18] {
            Value::I32(x) => *x,
            _ => return None,
        };
        let icon_id = match &items[19] {
            Value::I32(x) => *x,
            _ => return None,
        };
        let version = match &items[20] {
            Value::I32(x) => *x,
            _ => return None,
        };
        let region = match &items[21] {
            Value::U32(x) => *x,
            _ => return None,
        };
        let product = match &items[22] {
            Value::U32(x) => *x,
            _ => return None,
        };
        let platform = match &items[23] {
            Value::U32(x) => *x,
            _ => return None,
        };
        let r = DopingData { id, enum_name, ini_name, comment, name, help, effect, kind, data1, data2, cond_on_flag, cond_off_flag, icon_seq, effect_seq, drug_inner_seq1, drug_inner_seq2, drug_inner_seq3, tube_seq, drug_seq, icon_id, version, region, product, platform };
        assert(r.datum()->List_0 =~= values_view(items@));
        Some(r)
    }
}

impl DatabaseRecord for DopingData {
    open spec fn spec_id(&self) -> i32 {
        self.id
    }

    open spec fn spec_enum_name(&self) -> Seq<char> {
        self.enum_name@
    }

    fn database_id(&self) -> (r: i32) {
        self.id
    }

    fn database_enum_name(&self) -> (r: &str) {
        self.enum_name.as_str()
    }
}

/// A drink and what it costs.
pub struct DrinkData {
    pub id: i32,
    pub enum_name: String,
    pub name: String,
    pub hl_rate: i32,
    pub karma_rate: i32,
    pub seq_id: i32,
    pub select_seq_id: i32,
    pub use_karma_rate: i32,
    pub use_mana_rate: i32,
    pub version: i32,
    pub region: u32,
    pub product: u32,
    pub platform: u32,
}

impl DrinkData {
    /// The record as data: its fields in declaration order.
    pub open spec fn datum(&self) -> Datum {
        Datum::List(seq![
            Datum::I32(self.id),
            Datum::Str(self.enum_name@),
            Datum::Str(self.name@),
            Datum::I32(self.hl_rate),
            Datum::I32(self.karma_rate),
            Datum::I32(self.seq_id),
            Datum::I32(self.select_seq_id),
            Datum::I32(self.use_karma_rate),
            Datum::I32(self.use_mana_rate),
            Datum::I32(self.version),
            Datum::U32(self.region),
            Datum::U32(self.product),
            Datum::U32(self.platform),
        ])
    }

    /// Whether `s` is the shape this kind is stored in.
    pub open spec fn is_shape(s: Shape) -> bool {
        &&& s is Composite
        &&& s->Composite_0@.len() == 13
        &&& s->Composite_0@[0] is I32
        &&& s->Composite_0@[1] is Str
        &&& s->Composite_0@[2] is Str
        &&& s->Composite_0@[3] is I32
        &&& s->Composite_0@[4] is I32
        &&& s->Composite_0@[5] is I32
        &&& s->Composite_0@[6] is I32
        &&& s->Composite_0@[7] is I32
        &&& s->Composite_0@[8] is I32
        &&& s->Composite_0@[9] is I32
        &&& s->Composite_0@[10] is U32
        &&& s->Composite_0@[11] is U32
        &&& s->Composite_0@[12] is U32
    }

    /// The shape this kind is stored in.
    pub fn shape() -> (r: Shape)
        ensures
            Self::is_shape(r),
    {
        let mut fs: Vec<Shape> = Vec::new();
        fs.push(Shape::I32);
        fs.push(Shape::Str);
        fs.push(Shape::Str);
        fs.push(Shape::I32);
        fs.push(Shape::I32);
        fs.push(Shape::I32);
        fs.push(Shape::I32);
        fs.push(Shape::I32);
        fs.push(Shape::I32);
        fs.push(Shape::I32);
        fs.push(Shape::U32);
        fs.push(Shape::U32);
        fs.push(Shape::U32);
        Shape::Composite(fs)
    }

    /// The record as a value to encode.
    pub fn to_value(&self) -> (r: Value)
        ensures
            r@ == self.datum(),
    {
        let mut items: Vec<Value> = Vec::new();
        items.push(Value::I32(self.id));
        items.push(Value::Str(self.enum_name.clone()));
        items.push(Value::Str(self.name.clone()));
        items.push(Value::I32(self.hl_rate));
        items.push(Value::I32(self.karma_rate));
        items.push(Value::I32(self.seq_id));
        items.push(Value::I32(self.select_seq_id));
        items.push(Value::I32(self.use_karma_rate));
        items.push(Value::I32(self.use_mana_rate));
        items.push(Value::I32(self.version));
        items.push(Value::U32(self.region));
        items.push(Value::U32(self.product));
        items.push(Value::U32(self.platform));
        proof {
            lemma_values_view_all(items@);
            assert(values_view(items@) =~= self.datum()->List_0);
        }
        Value::List(items)
    }

    /// The record a decoded value holds; `None` where no record of this kind
    /// is that value.
    pub fn from_value(v: &Value) -> (r: Option<Self>)
        ensures
            match r {
                Some(x) => x.datum() == v@,
                None => forall|x: Self| #[trigger] x.datum() != v@,
            },
    {
        let items = match v {
            Value::List(items) => items,
            _ => return None,
        };
        proof {
            lemma_values_view_all(items@);
        }
        if items.len() != 13 {
            return None;
        }
        let id = match &items[0] {
            Value::I32(x) => *x,
            _ => return None,
        };
        let enum_name = match &items[1] {
            Value::Str(s) => s.clone(),
            _ => return None,
        };
        let name = match &items[2] {
            Value::Str(s) => s.clone(),
            _ => return None,
        };
        let hl_rate = match &items[3] {
            Value::I32(x) => *x,
            _ => return None,
        };
        let karma_rate = match &items[4] {
            Value::I32(x) => *x,
            _ => return None,
        };
        let seq_id = match &items[5] {
            Value::I32(x) => *x,
            _ => return None,
        };
        let select_seq_id = match &items[6] {
            Value::I32(x) => *x,
            _ => return None,
        };
        let use_karma_rate = match &items[7] {
            Value::I32(x) => *x,
            _ => return None,
        };
        let use_mana_rate = match &items[8] {
            Value::I32(x) => *x,
            _ => return None,
        };
        let version = match &items[9] {
            Value::I32(x) => *x,
            _ => return None,
        };
        let region = match &items[10] {
            Value::U32(x) => *x,
            _ => return None,
        };
        let product = match &items[11] {
            Value::U32(x) => *x,
            _ => return None,
        };
        let platform = match &items[12] {
            Value::U32(x) => *x,
            _ => return None,
        };
        let r = DrinkData { id, enum_name, name, hl_rate, karma_rate, seq_id, select_seq_id, use_karma_rate, use_mana_rate, version, region, product, platform };
        assert(r.datum()->List_0 =~= values_view(items@));
        Some(r)
    }
}

impl DatabaseRecord for DrinkData {
    open spec fn spec_id(&self) -> i32 {
        self.id
    }

    open spec fn spec_enum_name(&self) -> Seq<char> {
        self.enum_name@
    }

    fn database_id(&self) -> (r: i32) {
        self.id
    }

    fn database_enum_name(&self) -> (r: &str) {
        self.enum_name.as_str()
    }
}

/// A stage of a dungeon and the flags that open it.
pub struct StageInfo {
    pub id: i32,
    pub clear_count: i32,
    pub is_first_time_configuration: i32,
    pub cond_on_flag: Vec<i32>,
    pub cond_off_flag: Vec<i32>,
}

impl StageInfo {
    /// The record as data: its fields in declaration order.
    pub open spec fn datum(&self) -> Datum {
        Datum::List(seq![
            Datum::I32(self.id),
            Datum::I32(self.clear_count),
            Datum::I32(self.is_first_time_configuration),
            i32s_datum(self.cond_on_flag@),
            i32s_datum(self.cond_off_flag@),
        ])
    }

    /// Whether `s` is the shape this kind is stored in.
    pub open spec fn is_shape(s: Shape) -> bool {
        &&& s is Composite
        &&& s->Composite_0@.len() == 5
        &&& s->Composite_0@[0] is I32
        &&& s->Composite_0@[1] is I32
        &&& s->Composite_0@[2] is I32
        &&& (s->Composite_0@[3] matches Shape::Sequence(el) && *el is I32)
        &&& (s->Composite_0@[4] matches Shape::Sequence(el) && *el is I32)
    }

    /// The shape this kind is stored in.
    pub fn shape() -> (r: Shape)
        ensures
            Self::is_shape(r),
    {
        let mut fs: Vec<Shape> = Vec::new();
        fs.push(Shape::I32);
        fs.push(Shape::I32);
        fs.push(Shape::I32);
        fs.push(Shape::Sequence(Box::new(Shape::I32)));
        fs.push(Shape::Sequence(Box::new(Shape::I32)));
        Shape::Composite(fs)
    }

    /// The record as a value to encode.
    pub fn to_value(&self) -> (r: Value)
        ensures
            r@ == self.datum(),
    {
        let mut items: Vec<Value> = Vec::new();
        items.push(Value::I32(self.id));
        items.push(Value::I32(self.clear_count));
        items.push(Value::I32(self.is_first_time_configuration));
        items.push(i32s_to_value(self.cond_on_flag.as_slice()));
        items.push(i32s_to_value(self.cond_off_flag.as_slice()));
        proof {
            lemma_values_view_all(items@);
            assert(values_view(items@) =~= self.datum()->List_0);
        }
        Value::List(items)
    }

    /// The record a decoded value holds; `None` where no record of this kind
    /// is that value.
    pub fn from_value(v: &Value) -> (r: Option<Self>)
        ensures
            match r {
                Some(x) => x.datum() == v@,
                None => forall|x: Self| #[trigger] x.datum() != v@,
            },
    {
        let items = match v {
            Value::List(items) => items,
            _ => return None,
        };
        proof {
            lemma_values_view_all(items@);
        }
        if items.len() != 5 {
            return None;
        }
        let id = match &items[0] {
            Value::I32(x) => *x,
            _ => return None,
        };
        let clear_count = match &items[1] {
            Value::I32(x) => *x,
            _ => return None,
        };
        let is_first_time_configuration = match &items[2] {
            Value::I32(x) => *x,
            _ => return None,
        };
        let cond_on_flag = match i32s_from_value(&items[3]) {
            Some(x) => x,
            None => {
                assert forall|x: Self| #[trigger] x.datum() != v@ by {
                    if x.datum() == v@ {
                        assert(x.datum()->List_0[3] == items@[3]@);
                    }
                }
                return None;
            },
        };
        let cond_off_flag = match i32s_from_value(&items[4]) {
            Some(x) => x,
            None => {
                assert forall|x: Self| #[trigger] x.datum() != v@ by {
                    if x.datum() == v@ {
                        assert(x.datum()->List_0[4] == items@[4]@);
                    }
                }
                return None;
            },
        };
        let r = StageInfo { id, clear_count, is_first_time_configuration, cond_on_flag, cond_off_flag };
        assert(r.datum()->List_0 =~= values_view(items@));
        Some(r)
    }
}

/// A dungeon and its stages.
pub struct DungeonData {
    pub id: i32,
    pub enum_name: String,
    pub name: String,
    pub area_id: i32,
    pub difficulty: i32,
    pub cond_on_flag: Vec<i32>,
    pub cond_off_flag: Vec<i32>,
    pub stage: Vec<StageInfo>,
    pub tag: i32,
    pub version: i32,
    pub region: u32,
    pub product: u32,
    pub platform: u32,
}

impl DungeonData {
    /// The record as data: its fields in declaration order.
    pub open spec fn datum(&self) -> Datum {
        Datum::List(seq![
            Datum::I32(self.id),
            Datum::Str(self.enum_name@),
            Datum::Str(self.name@),
            Datum::I32(self.area_id),
            Datum::I32(self.difficulty),
            i32s_datum(self.cond_on_flag@),
            i32s_datum(self.cond_off_flag@),
            stage_info_list_datum(self.stage@),
            Datum::I32(self.tag),
            Datum::I32(self.version),
            Datum::U32(self.region),
            Datum::U32(self.product),
            Datum::U32(self.platform),
        ])
    }

    /// Whether `s` is the shape this kind is stored in.
    pub open spec fn is_shape(s: Shape) -> bool {
        &&& s is Composite
        &&& s->Composite_0@.len() == 13
        &&& s->Composite_0@[0] is I32
        &&& s->Composite_0@[1] is Str
        &&& s->Composite_0@[2] is Str
        &&& s->Composite_0@[3] is I32
        &&& s->Composite_0@[4] is I32
        &&& (s->Composite_0@[5] matches Shape::Sequence(el) && *el is I32)
        &&& (s->Composite_0@[6] matches Shape::Sequence(el) && *el is I32)
        &&& (s->Composite_0@[7] matches Shape::Sequence(el) && StageInfo::is_shape(*el))
        &&& s->Composite_0@[8] is I32
        &&& s->Composite_0@[9] is I32
        &&& s->Composite_0@[10] is U32
        &&& s->Composite_0@[11] is U32
        &&& s->Composite_0@[12] is U32
    }

    /// The shape this kind is stored in.
    pub fn shape() -> (r: Shape)
        ensures
            Self::is_shape(r),
    {
        let mut fs: Vec<Shape> = Vec::new();
        fs.push(Shape::I32);
        fs.push(Shape::Str);
        fs.push(Shape::Str);
        fs.push(Shape::I32);
        fs.push(Shape::I32);
        fs.push(Shape::Sequence(Box::new(Shape::I32)));
        fs.push(Shape::Sequence(Box::new(Shape::I32)));
        fs.push(Shape::Sequence(Box::new(StageInfo::shape())));
        fs.push(Shape::I32);
        fs.push(Shape::I32);
        fs.push(Shape::U32);
        fs.push(Shape::U32);
        fs.push(Shape::U32);
        Shape::Composite(fs)
    }

    /// The record as a value to encode.
    pub fn to_value(&self) -> (r: Value)
        ensures
            r@ == self.datum(),
    {
        let mut items: Vec<Value> = Vec::new();
        items.push(Value::I32(self.id));
        items.push(Value::Str(self.enum_name.clone()));
        items.push(Value::Str(self.name.clone()));
        items.push(Value::I32(self.area_id));
        items.push(Value::I32(self.difficulty));
        items.push(i32s_to_value(self.cond_on_flag.as_slice()));
        items.push(i32s_to_value(self.cond_off_flag.as_slice()));
        items.push(stage_info_list_to_value(&self.stage));
        items.push(Value::I32(self.tag));
        items.push(Value::I32(self.version));
        items.push(Value::U32(self.region));
        items.push(Value::U32(self.product));
        items.push(Value::U32(self.platform));
        proof {
            lemma_values_view_all(items@);
            assert(values_view(items@) =~= self.datum()->List_0);
        }
        Value::List(items)
    }

    /// The record a decoded value holds; `None` where no record of this kind
    /// is that value.
    pub fn from_value(v: &Value) -> (r: Option<Self>)
        ensures
            match r {
                Some(x) => x.datum() == v@,
                None => forall|x: Self| #[trigger] x.datum() != v@,
            },
    {
        let items = match v {
            Value::List(items) => items,
            _ => return None,
        };
        proof {
            lemma_values_view_all(items@);
        }
        if items.len() != 13 {
            return None;
        }
        let id = match &items[0] {
            Value::I32(x) => *x,
            _ => return None,
        };
        let enum_name = match &items[1] {
            Value::Str(s) => s.clone(),
            _ => return None,
        };
        let name = match &items[2] {
            Value::Str(s) => s.clone(),
            _ => return None,
        };
        let area_id = match &items[3] {
            Value::I32(x) => *x,
            _ => return None,
        };
        let difficulty = match &items[4] {
            Value::I32(x) => *x,
            _ => return None,
        };
        let cond_on_flag = match i32s_from_value(&items[5]) {
            Some(x) => x,
            None => {
                assert forall|x: Self| #[trigger] x.datum() != v@ by {
                    if x.datum() == v@ {
                        assert(x.datum()->List_0[5] == items@[5]@);
                    }
                }
                return None;
            },
        };
        let cond_off_flag = match i32s_from_value(&items[6]) {
            Some(x) => x,
            None => {
                assert forall|x: Self| #[trigger] x.datum() != v@ by {
                    if x.datum() == v@ {
                        assert(x.datum()->List_0[6] == items@[6]@);
                    }
                }
                return None;
            },
        };
        let stage = match stage_info_list_from_value(&items[7]) {
            Some(x) => x,
            None => {
                assert forall|x: Self| #[trigger] x.datum() != v@ by {
                    if x.datum() == v@ {
                        assert(x.datum()->List_0[7] == items@[7]@);
                    }
                }
                return None;
            },
        };
        let tag = match &items[8] {
            Value::I32(x) => *x,
            _ => return None,
        };
        let version = match &items[9] {
            Value::I32(x) => *x,
            _ => return None,
        };
        let region = match &items[10] {
            Value::U32(x) => *x,
            _ => return None,
        };
        let product = match &items[11] {
            Value::U32(x) => *x,
            _ => return None,
        };
        let platform = match &items[12] {
            Value::U32(x) => *x,
            _ => return None,
        };
        let r = DungeonData { id, enum_name, name, area_id, difficulty, cond_on_flag, cond_off_flag, stage, tag, version, region, product, platform };
        assert(r.datum()->List_0 =~= values_view(items@));
        Some(r)
    }
}

impl DatabaseRecord for DungeonData {
    open spec fn spec_id(&self) -> i32 {
        self.id
    }

    open spec fn spec_enum_name(&self) -> Seq<char> {
        self.enum_name@
    }

    fn database_id(&self) -> (r: i32) {
        self.id
    }

    fn database_enum_name(&self) -> (r: &str) {
        self.enum_name.as_str()
    }
}

/// A reward for completing a draw table.
pub struct Complete {
    pub kind: i32,
    pub val1: i32,
    pub val2: i32,
}

impl Complete {
    /// The record as data: its fields in declaration order.
    pub open spec fn datum(&self) -> Datum {
        Datum::List(seq![
            Datum::I32(self.kind),
            Datum::I32(self.val1),
            Datum::I32(self.val2),
        ])
    }

    /// Whether `s` is the shape this kind is stored in.
    pub open spec fn is_shape(s: Shape) -> bool {
        &&& s is Composite
        &&& s->Composite_0@.len() == 3
        &&& s->Composite_0@[0] is I32
        &&& s->Composite_0@[1] is I32
        &&& s->Composite_0@[2] is I32
    }

    /// The shape this kind is stored in.
    pub fn shape() -> (r: Shape)
        ensures
            Self::is_shape(r),
    {
        let mut fs: Vec<Shape> = Vec::new();
        fs.push(Shape::I32);
        fs.push(Shape::I32);
        fs.push(Shape::I32);
        Shape::Composite(fs)
    }

    /// The record as a value to encode.
    pub fn to_value(&self) -> (r: Value)
        ensures
            r@ == self.datum(),
    {
        let mut items: Vec<Value> = Vec::new();
        items.push(Value::I32(self.kind));
        items.push(Value::I32(self.val1));
        items.push(Value::I32(self.val2));
        proof {
            lemma_values_view_all(items@);
            assert(values_view(items@) =~= self.datum()->List_0);
        }
        Value::List(items)
    }

    /// The record a decoded value holds; `None` where no record of this kind
    /// is that value.
    pub fn from_value(v: &Value) -> (r: Option<Self>)
        ensures
            match r {
                Some(x) => x.datum() == v@,
                None => forall|x: Self| #[trigger] x.datum() != v@,
            },
    {
        let items = match v {
            Value::List(items) => items,
            _ => return None,
        };
        proof {
            lemma_values_view_all(items@);
        }
        if items.len() != 3 {
            return None;
        }
        let kind = match &items[0] {
            Value::I32(x) => *x,
            _ => return None,
        };
        let val1 = match &items[1] {
            Value::I32(x) => *x,
            _ => return None,
        };
        let val2 = match &items[2] {
            Value::I32(x) => *x,
            _ => return None,
        };
        let r = Complete { kind, val1, val2 };
        assert(r.datum()->List_0 =~= values_view(items@));
        Some(r)
    }
}

/// One prize of a draw table.
pub struct Info {
    pub kind: i32,
    pub val1: i32,
    pub val2: i32,
    pub identification_id: i32,
    pub rate: i32,
    pub is_complete: i32,
}

impl Info {
    /// The record as data: its fields in declaration order.
    pub open spec fn datum(&self) -> Datum {
        Datum::List(seq![
            Datum::I32(self.kind),
            Datum::I32(self.val1),
            Datum::I32(self.val2),
            Datum::I32(self.identification_id),
            Datum::I32(self.rate),
            Datum::I32(self.is_complete),
        ])
    }

    /// Whether `s` is the shape this kind is stored in.
    pub open spec fn is_shape(s: Shape) -> bool {
        &&& s is Composite
        &&& s->Composite_0@.len() == 6
        &&& s->Composite_0@[0] is I32
        &&& s->Composite_0@[1] is I32
        &&& s->Composite_0@[2] is I32
        &&& s->Composite_0@[3] is I32
        &&& s->Composite_0@[4] is I32
        &&& s->Composite_0@[5] is I32
    }

    /// The shape this kind is stored in.
    pub fn shape() -> (r: Shape)
        ensures
            Self::is_shape(r),
    {
        let mut fs: Vec<Shape> = Vec::new();
        fs.push(Shape::I32);
        fs.push(Shape::I32);
        fs.push(Shape::I32);
        fs.push(Shape::I32);
        fs.push(Shape::I32);
        fs.push(Shape::I32);
        Shape::Composite(fs)
    }

    /// The record as a value to encode.
    pub fn to_value(&self) -> (r: Value)
        ensures
            r@ == self.datum(),
    {
        let mut items: Vec<Value> = Vec::new();
        items.push(Value::I32(self.kind));
        items.push(Value::I32(self.val1));
        items.push(Value::I32(self.val2));
        items.push(Value::I32(self.identification_id));
        items.push(Value::I32(self.rate));
        items.push(Value::I32(self.is_complete));
        proof {
            lemma_values_view_all(items@);
            assert(values_view(items@) =~= self.datum()->List_0);
        }
        Value::List(items)
    }

    /// The record a decoded value holds; `None` where no record of this kind
    /// is that value.
    pub fn from_value(v: &Value) -> (r: Option<Self>)
        ensures
            match r {
                Some(x) => x.datum() == v@,
                None => forall|x: Self| #[trigger] x.datum() != v@,
            },
    {
        let items = match v {
            Value::List(items) => items,
            _ => return None,
        };
        proof {
            lemma_values_view_all(items@);
        }
        if items.len() != 6 {
            return None;
        }
        let kind = match &items[0] {
            Value::I32(x) => *x,
            _ => return None,
        };
        let val1 = match &items[1] {
            Value::I32(x) => *x,
            _ => return None,
        };
        let val2 = match &items[2] {
            Value::I32(x) => *x,
            _ => return None,
        };
        let identification_id = match &items[3] {
            Value::I32(x) => *x,
            _ => return None,
        };
        let rate = match &items[4] {
            Value::I32(x) => *x,
            _ => return None,
        };
        let is_complete = match &items[5] {
            Value::I32(x) => *x,
            _ => return None,
        };
        let r = Info { kind, val1, val2, identification_id, rate, is_complete };
        assert(r.datum()->List_0 =~= values_view(items@));
        Some(r)
    }
}

/// A hospital draw table.
pub struct HospitalGachaData {
    pub id: i32,
    pub enum_name: String,
    pub comment: String,
    pub name: CmlString,
    pub help: CmlString,
    pub consume_point: i32,
    pub info: Vec<Info>,
    pub info2: Vec<Info>,
    pub complete: Complete,
    pub complete2: Complete,
    pub cond_on_flag: Vec<i32>,
    pub cond_off_flag: Vec<i32>,
    pub open_flag: i32,
    pub on_flag_when_complete: i32,
    pub version: i32,
    pub region: u32,
    pub product: u32,
    pub platform: u32,
}

impl HospitalGachaData {
    /// The record as data: its fields in declaration order.
    pub open spec fn datum(&self) -> Datum {
        Datum::List(seq![
            Datum::I32(self.id),
            Datum::Str(self.enum_name@),
            Datum::Str(self.comment@),
            self.name.datum(),
            self.help.datum(),
            Datum::I32(self.consume_point),
            info_list_datum(self.info@),
            info_list_datum(self.info2@),
            self.complete.datum(),
            self.complete2.datum(),
            i32s_datum(self.cond_on_flag@),
            i32s_datum(self.cond_off_flag@),
            Datum::I32(self.open_flag),
            Datum::I32(self.on_flag_when_complete),
            Datum::I32(self.version),
            Datum::U32(self.region),
            Datum::U32(self.product),
            Datum::U32(self.platform),
        ])
    }

    /// Whether `s` is the shape this kind is stored in.
    pub open spec fn is_shape(s: Shape) -> bool {
        &&& s is Composite
        &&& s->Composite_0@.len() == 18
        &&& s->Composite_0@[0] is I32
        &&& s->Composite_0@[1] is Str
        &&& s->Composite_0@[2] is Str
        &&& CmlString::is_shape(s->Composite_0@[3])
        &&& CmlString::is_shape(s->Composite_0@[4])
        &&& s->Composite_0@[5] is I32
        &&& (s->Composite_0@[6] matches Shape::Sequence(el) && Info::is_shape(*el))
        &&& (s->Composite_0@[7] matches Shape::Sequence(el) && Info::is_shape(*el))
        &&& Complete::is_shape(s->Composite_0@[8])
        &&& Complete::is_shape(s->Composite_0@[9])
        &&& (s->Composite_0@[10] matches Shape::Sequence(el) && *el is I32)
        &&& (s->Composite_0@[11] matches Shape::Sequence(el) && *el is I32)
        &&& s->Composite_0@[12] is I32
        &&& s->Composite_0@[13] is I32
        &&& s->Composite_0@[14] is I32
        &&& s->Composite_0@[15] is U32
        &&& s->Composite_0@[16] is U32
        &&& s->Composite_0@[17] is U32
    }

    /// The shape this kind is stored in.
    pub fn shape() -> (r: Shape)
        ensures
            Self::is_shape(r),
    {
        let mut fs: Vec<Shape> = Vec::new();
        fs.push(Shape::I32);
        fs.push(Shape::Str);
        fs.push(Shape::Str);
        fs.push(CmlString::shape());
        fs.push(CmlString::shape());
        fs.push(Shape::I32);
        fs.push(Shape::Sequence(Box::new(Info::shape())));
        fs.push(Shape::Sequence(Box::new(Info::shape())));
        fs.push(Complete::shape());
        fs.push(Complete::shape());
        fs.push(Shape::Sequence(Box::new(Shape::I32)));
        fs.push(Shape::Sequence(Box::new(Shape::I32)));
        fs.push(Shape::I32);
        fs.push(Shape::I32);
        fs.push(Shape::I32);
        fs.push(Shape::U32);
        fs.push(Shape::U32);
        fs.push(Shape::U32);
        Shape::Composite(fs)
    }

    /// The record as a value to encode.
    pub fn to_value(&self) -> (r: Value)
        ensures
            r@ == self.datum(),
    {
        let mut items: Vec<Value> = Vec::new();
        items.push(Value::I32(self.id));
        items.push(Value::Str(self.enum_name.clone()));
        items.push(Value::Str(self.comment.clone()));
        items.push(self.name.to_value());
        items.push(self.help.to_value());
        items.push(Value::I32(self.consume_point));
        items.push(info_list_to_value(&self.info));
        items.push(info_list_to_value(&self.info2));
        items.push(self.complete.to_value());
        items.push(self.complete2.to_value());
        items.push(i32s_to_value(self.cond_on_flag.as_slice()));
        items.push(i32s_to_value(self.cond_off_flag.as_slice()));
        items.push(Value::I32(self.open_flag));
        items.push(Value::I32(self.on_flag_when_complete));
        items.push(Value::I32(self.version));
        items.push(Value::U32(self.region));
        items.push(Value::U32(self.product));
        items.push(Value::U32(self.platform));
        proof {
            lemma_values_view_all(items@);
            assert(values_view(items@) =~= self.datum()->List_0);
        }
        Value::List(items)
    }

    /// The record a decoded value holds; `None` where no record of this kind
    /// is that value.
    pub fn from_value(v: &Value) -> (r: Option<Self>)
        ensures
            match r {
                Some(x) => x.datum() == v@,
                None => forall|x: Self| #[trigger] x.datum() != v@,
            },
    {
        let items = match v {
            Value::List(items) => items,
            _ => return None,
        };
        proof {
            lemma_values_view_all(items@);
        }
        if items.len() != 18 {
            return None;
        }
        let id = match &items[0] {
            Value::I32(x) => *x,
            _ => return None,
        };
        let enum_name = match &items[1] {
            Value::Str(s) => s.clone(),
            _ => return None,
        };
        let comment = match &items[2] {
            Value::Str(s) => s.clone(),
            _ => return None,
        };
        let name = match CmlString::from_value(&items[3]) {
            Some(x) => x,
            None => {
                assert forall|x: Self| #[trigger] x.datum() != v@ by {
                    if x.datum() == v@ {
                        assert(x.datum()->List_0[3] == items@[3]@);
                    }
                }
                return None;
            },
        };
        let help = match CmlString::from_value(&items[4]) {
            Some(x) => x,
            None => {
                assert forall|x: Self| #[trigger] x.datum() != v@ by {
                    if x.datum() == v@ {
                        assert(x.datum()->List_0[4] == items@[4]@);
                    }
                }
                return None;
            },
        };
        let consume_point = match &items[5] {
            Value::I32(x) => *x,
            _ => return None,
        };
        let info = match info_list_from_value(&items[6]) {
            Some(x) => x,
            None => {
                assert forall|x: Self| #[trigger] x.datum() != v@ by {
                    if x.datum() == v@ {
                        assert(x.datum()->List_0[6] == items@[6]@);
                    }
                }
                return None;
            },
        };
        let info2 = match info_list_from_value(&items[7]) {
            Some(x) => x,
            None => {
                assert forall|x: Self| #[trigger] x.datum() != v@ by {
                    if x.datum() == v@ {
                        assert(x.datum()->List_0[7] == items@[7]@);
                    }
                }
                return None;
            },
        };
        let complete = match Complete::from_value(&items[8]) {
            Some(x) => x,
            None => {
                assert forall|x: Self| #[trigger] x.datum() != v@ by {
                    if x.datum() == v@ {
                        assert(x.datum()->List_0[8] == items@[8]@);
                    }
                }
                return None;
            },
        };
        let complete2 = match Complete::from_value(&items[9]) {
            Some(x) => x,
            None => {
                assert forall|x: Self| #[trigger] x.datum() != v@ by {
                    if x.datum() == v@ {
                        assert(x.datum()->List_0[9] == items@[9]@);
                    }
                }
                return None;
            },
        };
        let cond_on_flag = match i32s_from_value(&items[10]) {
            Some(x) => x,
            None => {
                assert forall|x: Self| #[trigger] x.datum() != v@ by {
                    if x.datum() == v@ {
                        assert(x.datum()->List_0[10] == items@[10]@);
                    }
                }
                return None;
            },
        };
        let cond_off_flag = match i32s_from_value(&items[11]) {
            Some(x) => x,
            None => {
                assert forall|x: Self| #[trigger] x.datum() != v@ by {
                    if x.datum() == v@ {
                        assert(x.datum()->List_0[11] == items@[11]@);
                    }
                }
                return None;
            },
        };
        let open_flag = match &items[12] {
            Value::I32(x) => *x,
            _ => return None,
        };
        let on_flag_when_complete = match &items[13] {
            Value::I32(x) => *x,
            _ => return None,
        };
        let version = match &items[14] {
            Value::I32(x) => *x,
            _ => return None,
        };
        let region = match &items[15] {
            Value::U32(x) => *x,
            _ => return None,
        };
        let product = match &items[16] {
            Value::U32(x) => *x,
            _ => return None,
        };
        let platform = match &items[17] {
            Value::U32(x) => *x,
            _ => return None,
        };
        let r = HospitalGachaData { id, enum_name, comment, name, help, consume_point, info, info2, complete, complete2, cond_on_flag, cond_off_flag, open_flag, on_flag_when_complete, version, region, product, platform };
        assert(r.datum()->List_0 =~= values_view(items@));
        Some(r)
    }
}

impl DatabaseRecord for HospitalGachaData {
    open spec fn spec_id(&self) -> i32 {
        self.id
    }

    open spec fn spec_enum_name(&self) -> Seq<char> {
        self.enum_name@
    }

    fn database_id(&self) -> (r: i32) {
        self.id
    }

    fn database_enum_name(&self) -> (r: &str) {
        self.enum_name.as_str()
    }
}

/// An innocent and its values.
pub struct InnocentData {
    pub id: i32,
    pub enum_name: String,
    pub name: CmlString,
    pub help_text: CmlString,
    pub max_value: i64,
    pub max_value_disobedience: i64,
    pub sell_point: i64,
    pub sell_point_correction: i32,
    pub probability: [i32; 18],
    pub pwer_type: i32,
    pub kind: i32,
    pub version: i32,
    pub region: u32,
    pub product: u32,
    pub platform: u32,
}

impl InnocentData {
    /// The record as data: its fields in declaration order.
    pub open spec fn datum(&self) -> Datum {
        Datum::List(seq![
            Datum::I32(self.id),
            Datum::Str(self.enum_name@),
            self.name.datum(),
            self.help_text.datum(),
            Datum::I64(self.max_value),
            Datum::I64(self.max_value_disobedience),
            Datum::I64(self.sell_point),
            Datum::I32(self.sell_point_correction),
            i32s_datum(self.probability@),
            Datum::I32(self.pwer_type),
            Datum::I32(self.kind),
            Datum::I32(self.version),
            Datum::U32(self.region),
            Datum::U32(self.product),
            Datum::U32(self.platform),
        ])
    }

    /// Whether `s` is the shape this kind is stored in.
    pub open spec fn is_shape(s: Shape) -> bool {
        &&& s is Composite
        &&& s->Composite_0@.len() == 15
        &&& s->Composite_0@[0] is I32
        &&& s->Composite_0@[1] is Str
        &&& CmlString::is_shape(s->Composite_0@[2])
        &&& CmlString::is_shape(s->Composite_0@[3])
        &&& s->Composite_0@[4] is I64
        &&& s->Composite_0@[5] is I64
        &&& s->Composite_0@[6] is I64
        &&& s->Composite_0@[7] is I32
        &&& (s->Composite_0@[8] matches Shape::Array(n, el) && n == 18 && *el is I32)
        &&& s->Composite_0@[9] is I32
        &&& s->Composite_0@[10] is I32
        &&& s->Composite_0@[11] is I32
        &&& s->Composite_0@[12] is U32
        &&& s->Composite_0@[13] is U32
        &&& s->Composite_0@[14] is U32
    }

    /// The shape this kind is stored in.
    pub fn shape() -> (r: Shape)
        ensures
            Self::is_shape(r),
    {
        let mut fs: Vec<Shape> = Vec::new();
        fs.push(Shape::I32);
        fs.push(Shape::Str);
        fs.push(CmlString::shape());
        fs.push(CmlString::shape());
        fs.push(Shape::I64);
        fs.push(Shape::I64);
        fs.push(Shape::I64);
        fs.push(Shape::I32);
        fs.push(Shape::Array(18, Box::new(Shape::I32)));
        fs.push(Shape::I32);
        fs.push(Shape::I32);
        fs.push(Shape::I32);
        fs.push(Shape::U32);
        fs.push(Shape::U32);
        fs.push(Shape::U32);
        Shape::Composite(fs)
    }

    /// The record as a value to encode.
    pub fn to_value(&self) -> (r: Value)
        ensures
            r@ == self.datum(),
    {
        let mut items: Vec<Value> = Vec::new();
        items.push(Value::I32(self.id));
        items.push(Value::Str(self.enum_name.clone()));
        items.push(self.name.to_value());
        items.push(self.help_text.to_value());
        items.push(Value::I64(self.max_value));
        items.push(Value::I64(self.max_value_disobedience));
        items.push(Value::I64(self.sell_point));
        items.push(Value::I32(self.sell_point_correction));
        items.push(i32s_to_value(&self.probability));
        items.push(Value::I32(self.pwer_type));
        items.push(Value::I32(self.kind));
        items.push(Value::I32(self.version));
        items.push(Value::U32(self.region));
        items.push(Value::U32(self.product));
        items.push(Value::U32(self.platform));
        proof {
            lemma_values_view_all(items@);
            assert(values_view(items@) =~= self.datum()->List_0);
        }
        Value::List(items)
    }

    /// The record a decoded value holds; `None` where no record of this kind
    /// is that value.
    pub fn from_value(v: &Value) -> (r: Option<Self>)
        ensures
            match r {
                Some(x) => x.datum() == v@,
                None => forall|x: Self| #[trigger] x.datum() != v@,
            },
    {
        let items = match v {
            Value::List(items) => items,
            _ => return None,
        };
        proof {
            lemma_values_view_all(items@);
        }
        if items.len() != 15 {
            return None;
        }
        let id = match &items[0] {
            Value::I32(x) => *x,
            _ => return None,
        };
        let enum_name = match &items[1] {
            Value::Str(s) => s.clone(),
            _ => return None,
        };
        let name = match CmlString::from_value(&items[2]) {
            Some(x) => x,
            None => {
                assert forall|x: Self| #[trigger] x.datum() != v@ by {
                    if x.datum() == v@ {
                        assert(x.datum()->List_0[2] == items@[2]@);
                    }
                }
                return None;
            },
        };
        let help_text = match CmlString::from_value(&items[3]) {
            Some(x) => x,
            None => {
                assert forall|x: Self| #[trigger] x.datum() != v@ by {
                    if x.datum() == v@ {
                        assert(x.datum()->List_0[3] == items@[3]@);
                    }
                }
                return None;
            },
        };
        let max_value = match &items[4] {
            Value::I64(x) => *x,
            _ => return None,
        };
        let max_value_disobedience = match &items[5] {
            Value::I64(x) => *x,
            _ => return None,
        };
        let sell_point = match &items[6] {
            Value::I64(x) => *x,
            _ => return None,
        };
        let sell_point_correction = match &items[7] {
            Value::I32(x) => *x,
            _ => return None,
        };
        let probability = match i32s_from_value(&items[8]) {
            Some(x) => x,
            None => {
                assert forall|x: Self| #[trigger] x.datum() != v@ by {
                    if x.datum() == v@ {
                        assert(x.datum()->List_0[8] == items@[8]@);
                    }
                }
                return None;
            },
        };
        if probability.len() != 18 {
            assert forall|x: Self| #[trigger] x.datum() != v@ by {
                if x.datum() == v@ {
                    assert(x.datum()->List_0[8] == items@[8]@);
                    assert(i32s_datum(x.probability@)->List_0.len() == x.probability@.len());
                }
            }
            return None;
        }
        let probability = i32_array_18(&probability);
        let pwer_type = match &items[9] {
            Value::I32(x) => *x,
            _ => return None,
        };
        let kind = match &items[10] {
            Value::I32(x) => *x,
            _ => return None,
        };
        let version = match &items[11] {
            Value::I32(x) => *x,
            _ => return None,
        };
        let region = match &items[12] {
            Value::U32(x) => *x,
            _ => return None,
        };
        let product = match &items[13] {
            Value::U32(x) => *x,
            _ => return None,
        };
        let platform = match &items[14] {
            Value::U32(x) => *x,
            _ => return None,
        };
        let r = InnocentData { id, enum_name, name, help_text, max_value, max_value_disobedience, sell_point, sell_point_correction, probability, pwer_type, kind, version, region, product, platform };
        assert(r.datum()->List_0 =~= values_view(items@));
        Some(r)
    }
}

impl DatabaseRecord for InnocentData {
    open spec fn spec_id(&self) -> i32 {
        self.id
    }

    open spec fn spec_enum_name(&self) -> Seq<char> {
        self.enum_name@
    }

    fn database_id(&self) -> (r: i32) {
        self.id
    }

    fn database_enum_name(&self) -> (r: &str) {
        self.enum_name.as_str()
    }
}

/// An item a shop sells.
pub struct ItemInfo {
    pub item_id: i32,
    pub is_custom_item: i32,
}

impl ItemInfo {
    /// The record as data: its fields in declaration order.
    pub open spec fn datum(&self) -> Datum {
        Datum::List(seq![
            Datum::I32(self.item_id),
            Datum::I32(self.is_custom_item),
        ])
    }

    /// Whether `s` is the shape this kind is stored in.
    pub open spec fn is_shape(s: Shape) -> bool {
        &&& s is Composite
        &&& s->Composite_0@.len() == 2
        &&& s->Composite_0@[0] is I32
        &&& s->Composite_0@[1] is I32
    }

    /// The shape this kind is stored in.
    pub fn shape() -> (r: Shape)
        ensures
            Self::is_shape(r),
    {
        let mut fs: Vec<Shape> = Vec::new();
        fs.push(Shape::I32);
        fs.push(Shape::I32);
        Shape::Composite(fs)
    }

    /// The record as a value to encode.
    pub fn to_value(&self) -> (r: Value)
        ensures
            r@ == self.datum(),
    {
        let mut items: Vec<Value> = Vec::new();
        items.push(Value::I32(self.item_id));
        items.push(Value::I32(self.is_custom_item));
        proof {
            lemma_values_view_all(items@);
            assert(values_view(items@) =~= self.datum()->List_0);
        }
        Value::List(items)
    }

    /// The record a decoded value holds; `None` where no record of this kind
    /// is that value.
    pub fn from_value(v: &Value) -> (r: Option<Self>)
        ensures
            match r {
                Some(x) => x.datum() == v@,
                None => forall|x: Self| #[trigger] x.datum() != v@,
            },
    {
        let items = match v {
            Value::List(items) => items,
            _ => return None,
        };
        proof {
            lemma_values_view_all(items@);
        }
        if items.len() != 2 {
            return None;
        }
        let item_id = match &items[0] {
            Value::I32(x) => *x,
            _ => return None,
        };
        let is_custom_item = match &items[1] {
            Value::I32(x) => *x,
            _ => return None,
        };
        let r = ItemInfo { item_id, is_custom_item };
        assert(r.datum()->List_0 =~= values_view(items@));
        Some(r)
    }
}

/// A shop's lineup.
pub struct ItemShopLineupData {
    pub id: i32,
    pub enum_name: String,
    pub item_info_list: Vec<ItemInfo>,
    pub version: i32,
    pub region: u32,
    pub product: u32,
    pub platform: u32,
}

impl ItemShopLineupData {
    /// The record as data: its fields in declaration order.
    pub open spec fn datum(&self) -> Datum {
        Datum::List(seq![
            Datum::I32(self.id),
            Datum::Str(self.enum_name@),
            item_info_list_datum(self.item_info_list@),
            Datum::I32(self.version),
            Datum::U32(self.region),
            Datum::U32(self.product),
            Datum::U32(self.platform),
        ])
    }

    /// Whether `s` is the shape this kind is stored in.
    pub open spec fn is_shape(s: Shape) -> bool {
        &&& s is Composite
        &&& s->Composite_0@.len() == 7
        &&& s->Composite_0@[0] is I32
        &&& s->Composite_0@[1] is Str
        &&& (s->Composite_0@[2] matches Shape::Sequence(el) && ItemInfo::is_shape(*el))
        &&& s->Composite_0@[3] is I32
        &&& s->Composite_0@[4] is U32
        &&& s->Composite_0@[5] is U32
        &&& s->Composite_0@[6] is U32
    }

    /// The shape this kind is stored in.
    pub fn shape() -> (r: Shape)
        ensures
            Self::is_shape(r),
    {
        let mut fs: Vec<Shape> = Vec::new();
        fs.push(Shape::I32);
        fs.push(Shape::Str);
        fs.push(Shape::Sequence(Box::new(ItemInfo::shape())));
        fs.push(Shape::I32);
        fs.push(Shape::U32);
        fs.push(Shape::U32);
        fs.push(Shape::U32);
        Shape::Composite(fs)
    }

    /// The record as a value to encode.
    pub fn to_value(&self) -> (r: Value)
        ensures
            r@ == self.datum(),
    {
        let mut items: Vec<Value> = Vec::new();
        items.push(Value::I32(self.id));
        items.push(Value::Str(self.enum_name.clone()));
        items.push(item_info_list_to_value(&self.item_info_list));
        items.push(Value::I32(self.version));
        items.push(Value::U32(self.region));
        items.push(Value::U32(self.product));
        items.push(Value::U32(self.platform));
        proof {
            lemma_values_view_all(items@);
            assert(values_view(items@) =~= self.datum()->List_0);
        }
        Value::List(items)
    }

    /// The record a decoded value holds; `None` where no record of this kind
    /// is that value.
    pub fn from_value(v: &Value) -> (r: Option<Self>)
        ensures
            match r {
                Some(x) => x.datum() == v@,
                None => forall|x: Self| #[trigger] x.datum() != v@,
            },
    {
        let items = match v {
            Value::List(items) => items,
            _ => return None,
        };
        proof {
            lemma_values_view_all(items@);
        }
        if items.len() != 7 {
            return None;
        }
        let id = match &items[0] {
            Value::I32(x) => *x,
            _ => return None,
        };
        let enum_name = match &items[1] {
            Value::Str(s) => s.clone(),
            _ => return None,
        };
        let item_info_list = match item_info_list_from_value(&items[2]) {
            Some(x) => x,
            None => {
                assert forall|x: Self| #[trigger] x.datum() != v@ by {
                    if x.datum() == v@ {
                        assert(x.datum()->List_0[2] == items@[2]@);
                    }
                }
                return None;
            },
        };
        let version = match &items[3] {
            Value::I32(x) => *x,
            _ => return None,
        };
        let region = match &items[4] {
            Value::U32(x) => *x,
            _ => return None,
        };
        let product = match &items[5] {
            Value::U32(x) => *x,
            _ => return None,
        };
        let platform = match &items[6] {
            Value::U32(x) => *x,
            _ => return None,
        };
        let r = ItemShopLineupData { id, enum_name, item_info_list, version, region, product, platform };
        assert(r.datum()->List_0 =~= values_view(items@));
        Some(r)
    }
}

impl DatabaseRecord for ItemShopLineupData {
    open spec fn spec_id(&self) -> i32 {
        self.id
    }

    open spec fn spec_enum_name(&self) -> Seq<char> {
        self.enum_name@
    }

    fn database_id(&self) -> (r: i32) {
        self.id
    }

    fn database_enum_name(&self) -> (r: &str) {
        self.enum_name.as_str()
    }
}

/// A kind of item.
pub struct ItemTypeData {
    pub id: i32,
    pub enum_name: String,
    pub name: String,
    pub info_name: CmlString,
    pub is_weapon: i32,
    pub is_human_weapon: i32,
    pub is_monster_weapon: i32,
    pub is_armor: i32,
    pub is_consume: i32,
    pub group_id: i32,
    pub sale_rate: i32,
    pub version: i32,
    pub region: u32,
    pub product: u32,
    pub platform: u32,
}

impl ItemTypeData {
    /// The record as data: its fields in declaration order.
    pub open spec fn datum(&self) -> Datum {
        Datum::List(seq![
            Datum::I32(self.id),
            Datum::Str(self.enum_name@),
            Datum::Str(self.name@),
            self.info_name.datum(),
            Datum::I32(self.is_weapon),
            Datum::I32(self.is_human_weapon),
            Datum::I32(self.is_monster_weapon),
            Datum::I32(self.is_armor),
            Datum::I32(self.is_consume),
            Datum::I32(self.group_id),
            Datum::I32(self.sale_rate),
            Datum::I32(self.version),
            Datum::U32(self.region),
            Datum::U32(self.product),
            Datum::U32(self.platform),
        ])
    }

    /// Whether `s` is the shape this kind is stored in.
    pub open spec fn is_shape(s: Shape) -> bool {
        &&& s is Composite
        &&& s->Composite_0@.len() == 15
        &&& s->Composite_0@[0] is I32
        &&& s->Composite_0@[1] is Str
        &&& s->Composite_0@[2] is Str
        &&& CmlString::is_shape(s->Composite_0@[3])
        &&& s->Composite_0@[4] is I32
        &&& s->Composite_0@[5] is I32
        &&& s->Composite_0@[6] is I32
        &&& s->Composite_0@[7] is I32
        &&& s->Composite_0@[8] is I32
        &&& s->Composite_0@[9] is I32
        &&& s->Composite_0@[10] is I32
        &&& s->Composite_0@[11] is I32
        &&& s->Composite_0@[12] is U32
        &&& s->Composite_0@[13] is U32
        &&& s->Composite_0@[14] is U32
    }

    /// The shape this kind is stored in.
    pub fn shape() -> (r: Shape)
        ensures
            Self::is_shape(r),
    {
        let mut fs: Vec<Shape> = Vec::new();
        fs.push(Shape::I32);
        fs.push(Shape::Str);
        fs.push(Shape::Str);
        fs.push(CmlString::shape());
        fs.push(Shape::I32);
        fs.push(Shape::I32);
        fs.push(Shape::I32);
        fs.push(Shape::I32);
        fs.push(Shape::I32);
        fs.push(Shape::I32);
        fs.push(Shape::I32);
        fs.push(Shape::I32);
        fs.push(Shape::U32);
        fs.push(Shape::U32);
        fs.push(Shape::U32);
        Shape::Composite(fs)
    }

    /// The record as a value to encode.
    pub fn to_value(&self) -> (r: Value)
        ensures
            r@ == self.datum(),
    {
        let mut items: Vec<Value> = Vec::new();
        items.push(Value::I32(self.id));
        items.push(Value::Str(self.enum_name.clone()));
        items.push(Value::Str(self.name.clone()));
        items.push(self.info_name.to_value());
        items.push(Value::I32(self.is_weapon));
        items.push(Value::I32(self.is_human_weapon));
        items.push(Value::I32(self.is_monster_weapon));
        items.push(Value::I32(self.is_armor));
        items.push(Value::I32(self.is_consume));
        items.push(Value::I32(self.group_id));
        items.push(Value::I32(self.sale_rate));
        items.push(Value::I32(self.version));
        items.push(Value::U32(self.region));
        items.push(Value::U32(self.product));
        items.push(Value::U32(self.platform));
        proof {
            lemma_values_view_all(items@);
            assert(values_view(items@) =~= self.datum()->List_0);
        }
        Value::List(items)
    }

    /// The record a decoded value holds; `None` where no record of this kind
    /// is that value.
    pub fn from_value(v: &Value) -> (r: Option<Self>)
        ensures
            match r {
                Some(x) => x.datum() == v@,
                None => forall|x: Self| #[trigger] x.datum() != v@,
            },
    {
        let items = match v {
            Value::List(items) => items,
            _ => return None,
        };
        proof {
            lemma_values_view_all(items@);
        }
        if items.len() != 15 {
            return None;
        }
        let id = match &items[0] {
            Value::I32(x) => *x,
            _ => return None,
        };
        let enum_name = match &items[1] {
            Value::Str(s) => s.clone(),
            _ => return None,
        };
        let name = match &items[2] {
            Value::Str(s) => s.clone(),
            _ => return None,
        };
        let info_name = match CmlString::from_value(&items[3]) {
            Some(x) => x,
            None => {
                assert forall|x: Self| #[trigger] x.datum() != v@ by {
                    if x.datum() == v@ {
                        assert(x.datum()->List_0[3] == items@[3]@);
                    }
                }
                return None;
            },
        };
        let is_weapon = match &items[4] {
            Value::I32(x) => *x,
            _ => return None,
        };
        let is_human_weapon = match &items[5] {
            Value::I32(x) => *x,
            _ => return None,
        };
        let is_monster_weapon = match &items[6] {
            Value::I32(x) => *x,
            _ => return None,
        };
        let is_armor = match &items[7] {
            Value::I32(x) => *x,
            _ => return None,
        };
        let is_consume = match &items[8] {
            Value::I32(x) => *x,
            _ => return None,
        };
        let group_id = match &items[9] {
            Value::I32(x) => *x,
            _ => return None,
        };
        let sale_rate = match &items[10] {
            Value::I32(x) => *x,
            _ => return None,
        };
        let version = match &items[11] {
            Value::I32(x) => *x,
            _ => return None,
        };
        let region = match &items[12] {
            Value::U32(x) => *x,
            _ => return None,
        };
        let product = match &items[13] {
            Value::U32(x) => *x,
            _ => return None,
        };
        let platform = match &items[14] {
            Value::U32(x) => *x,
            _ => return None,
        };
        let r = ItemTypeData { id, enum_name, name, info_name, is_weapon, is_human_weapon, is_monster_weapon, is_armor, is_consume, group_id, sale_rate, version, region, product, platform };
        assert(r.datum()->List_0 =~= values_view(items@));
        Some(r)
    }
}

impl DatabaseRecord for ItemTypeData {
    open spec fn spec_id(&self) -> i32 {
        self.id
    }

    open spec fn spec_enum_name(&self) -> Seq<char> {
        self.enum_name@
    }

    fn database_id(&self) -> (r: i32) {
        self.id
    }

    fn database_enum_name(&self) -> (r: &str) {
        self.enum_name.as_str()
    }
}

/// A condition that wins a stage.
pub struct VictoryCondition {
    pub condition: PairData,
    pub logic: i32,
}

impl VictoryCondition {
    /// The record as data: its fields in declaration order.
    pub open spec fn datum(&self) -> Datum {
        Datum::List(seq![
            self.condition.datum(),
            Datum::I32(self.logic),
        ])
    }

    /// Whether `s` is the shape this kind is stored in.
    pub open spec fn is_shape(s: Shape) -> bool {
        &&& s is Composite
        &&& s->Composite_0@.len() == 2
        &&& PairData::is_shape(s->Composite_0@[0])
        &&& s->Composite_0@[1] is I32
    }

    /// The shape this kind is stored in.
    pub fn shape() -> (r: Shape)
        ensures
            Self::is_shape(r),
    {
        let mut fs: Vec<Shape> = Vec::new();
        fs.push(PairData::shape());
        fs.push(Shape::I32);
        Shape::Composite(fs)
    }

    /// The record as a value to encode.
    pub fn to_value(&self) -> (r: Value)
        ensures
            r@ == self.datum(),
    {
        let mut items: Vec<Value> = Vec::new();
        items.push(self.condition.to_value());
        items.push(Value::I32(self.logic));
        proof {
            lemma_values_view_all(items@);
            assert(values_view(items@) =~= self.datum()->List_0);
        }
        Value::List(items)
    }

    /// The record a decoded value holds; `None` where no record of this kind
    /// is that value.
    pub fn from_value(v: &Value) -> (r: Option<Self>)
        ensures
            match r {
                Some(x) => x.datum() == v@,
                None => forall|x: Self| #[trigger] x.datum() != v@,
            },
    {
        let items = match v {
            Value::List(items) => items,
            _ => return None,
        };
        proof {
            lemma_values_view_all(items@);
        }
        if items.len() != 2 {
            return None;
        }
        let condition = match PairData::from_value(&items[0]) {
            Some(x) => x,
            None => {
                assert forall|x: Self| #[trigger] x.datum() != v@ by {
                    if x.datum() == v@ {
                        assert(x.datum()->List_0[0] == items@[0]@);
                    }
                }
                return None;
            },
        };
        let logic = match &items[1] {
            Value::I32(x) => *x,
            _ => return None,
        };
        let r = VictoryCondition { condition, logic };
        assert(r.datum()->List_0 =~= values_view(items@));
        Some(r)
    }
}

/// A condition that loses a stage.
pub struct DefeatCondition {
    pub condition: PairData,
    pub logic: i32,
}

impl DefeatCondition {
    /// The record as data: its fields in declaration order.
    pub open spec fn datum(&self) -> Datum {
        Datum::List(seq![
            self.condition.datum(),
            Datum::I32(self.logic),
        ])
    }

    /// Whether `s` is the shape this kind is stored in.
    pub open spec fn is_shape(s: Shape) -> bool {
        &&& s is Composite
        &&& s->Composite_0@.len() == 2
        &&& PairData::is_shape(s->Composite_0@[0])
        &&& s->Composite_0@[1] is I32
    }

    /// The shape this kind is stored in.
    pub fn shape() -> (r: Shape)
        ensures
            Self::is_shape(r),
    {
        let mut fs: Vec<Shape> = Vec::new();
        fs.push(PairData::shape());
        fs.push(Shape::I32);
        Shape::Composite(fs)
    }

    /// The record as a value to encode.
    pub fn to_value(&self) -> (r: Value)
        ensures
            r@ == self.datum(),
    {
        let mut items: Vec<Value> = Vec::new();
        items.push(self.condition.to_value());
        items.push(Value::I32(self.logic));
        proof {
            lemma_values_view_all(items@);
            assert(values_view(items@) =~= self.datum()->List_0);
        }
        Value::List(items)
    }

    /// The record a decoded value holds; `None` where no record of this kind
    /// is that value.
    pub fn from_value(v: &Value) -> (r: Option<Self>)
        ensures
            match r {
                Some(x) => x.datum() == v@,
                None => forall|x: Self| #[trigger] x.datum() != v@,
            },
    {
        let items = match v {
            Value::List(items) => items,
            _ => return None,
        };
        proof {
            lemma_values_view_all(items@);
        }
        if items.len() != 2 {
            return None;
        }
        let condition = match PairData::from_value(&items[0]) {
            Some(x) => x,
            None => {
                assert forall|x: Self| #[trigger] x.datum() != v@ by {
                    if x.datum() == v@ {
                        assert(x.datum()->List_0[0] == items@[0]@);
                    }
                }
                return None;
            },
        };
        let logic = match &items[1] {
            Value::I32(x) => *x,
            _ => return None,
        };
        let r = DefeatCondition { condition, logic };
        assert(r.datum()->List_0 =~= values_view(items@));
        Some(r)
    }
}

/// A battle stage.
pub struct StageData {
    pub id: i32,
    pub enum_name: String,
    pub ref_id: i32,
    pub name: CmlString,
    pub map_id: i32,
    pub map_type: i32,
    pub area_id: i32,
    pub cond_on_flag: Vec<i32>,
    pub cond_off_flag: Vec<i32>,
    pub bonus_rank: i32,
    pub stage_mission: i32,
    pub victory_list: Vec<VictoryCondition>,
    pub defeat_list: Vec<DefeatCondition>,
    pub condition_text: i32,
    pub bgm_no: i32,
    pub tex_id: i32,
    pub meta_script: String,
    pub start_demo_no: i32,
    pub end_event_no: i32,
    pub lose_event_no: i32,
    pub kind: i32,
    pub start_pos: Vec<i32>,
    pub goal_pos: Vec<i32>,
    pub sortie_direction: i32,
    pub sortie_stock: i32,
    pub placement_town_id: i32,
    pub placement_battle_id: i32,
    pub placement_enemy_base_panel_id: Vec<i32>,
    pub geo_panel_id: i32,
    pub clear_on_flag: Vec<i32>,
    pub clear_off_flag: Vec<i32>,
    pub difficulty: i32,
    pub version: i32,
    pub region: u32,
    pub product: u32,
    pub platform: u32,
}

impl StageData {
    /// The record as data: its fields in declaration order.
    pub open spec fn datum(&self) -> Datum {
        Datum::List(seq![
            Datum::I32(self.id),
            Datum::Str(self.enum_name@),
            Datum::I32(self.ref_id),
            self.name.datum(),
            Datum::I32(self.map_id),
            Datum::I32(self.map_type),
            Datum::I32(self.area_id),
            i32s_datum(self.cond_on_flag@),
            i32s_datum(self.cond_off_flag@),
            Datum::I32(self.bonus_rank),
            Datum::I32(self.stage_mission),
            victory_condition_list_datum(self.victory_list@),
            defeat_condition_list_datum(self.defeat_list@),
            Datum::I32(self.condition_text),
            Datum::I32(self.bgm_no),
            Datum::I32(self.tex_id),
            Datum::Str(self.meta_script@),
            Datum::I32(self.start_demo_no),
            Datum::I32(self.end_event_no),
            Datum::I32(self.lose_event_no),
            Datum::I32(self.kind),
            i32s_datum(self.start_pos@),
            i32s_datum(self.goal_pos@),
            Datum::I32(self.sortie_direction),
            Datum::I32(self.sortie_stock),
            Datum::I32(self.placement_town_id),
            Datum::I32(self.placement_battle_id),
            i32s_datum(self.placement_enemy_base_panel_id@),
            Datum::I32(self.geo_panel_id),
            i32s_datum(self.clear_on_flag@),
            i32s_datum(self.clear_off_flag@),
            Datum::I32(self.difficulty),
            Datum::I32(self.version),
            Datum::U32(self.region),
            Datum::U32(self.product),
            Datum::U32(self.platform),
        ])
    }

    /// Whether `s` is the shape this kind is stored in.
    pub open spec fn is_shape(s: Shape) -> bool {
        &&& s is Composite
        &&& s->Composite_0@.len() == 36
        &&& s->Composite_0@[0] is I32
        &&& s->Composite_0@[1] is Str
        &&& s->Composite_0@[2] is I32
        &&& CmlString::is_shape(s->Composite_0@[3])
        &&& s->Composite_0@[4] is I32
        &&& s->Composite_0@[5] is I32
        &&& s->Composite_0@[6] is I32
        &&& (s->Composite_0@[7] matches Shape::Sequence(el) && *el is I32)
        &&& (s->Composite_0@[8] matches Shape::Sequence(el) && *el is I32)
        &&& s->Composite_0@[9] is I32
        &&& s->Composite_0@[10] is I32
        &&& (s->Composite_0@[11] matches Shape::Sequence(el) && VictoryCondition::is_shape(*el))
        &&& (s->Composite_0@[12] matches Shape::Sequence(el) && DefeatCondition::is_shape(*el))
        &&& s->Composite_0@[13] is I32
        &&& s->Composite_0@[14] is I32
        &&& s->Composite_0@[15] is I32
        &&& s->Composite_0@[16] is Str
        &&& s->Composite_0@[17] is I32
        &&& s->Composite_0@[18] is I32
        &&& s->Composite_0@[19] is I32
        &&& s->Composite_0@[20] is I32
        &&& (s->Composite_0@[21] matches Shape::Sequence(el) && *el is I32)
        &&& (s->Composite_0@[22] matches Shape::Sequence(el) && *el is I32)
        &&& s->Composite_0@[23] is I32
        &&& s->Composite_0@[24] is I32
        &&& s->Composite_0@[25] is I32
        &&& s->Composite_0@[26] is I32
        &&& (s->Composite_0@[27] matches Shape::Sequence(el) && *el is I32)
        &&& s->Composite_0@[28] is I32
        &&& (s->Composite_0@[29] matches Shape::Sequence(el) && *el is I32)
        &&& (s->Composite_0@[30] matches Shape::Sequence(el) && *el is I32)
        &&& s->Composite_0@[31] is I32
        &&& s->Composite_0@[32] is I32
        &&& s->Composite_0@[33] is U32
        &&& s->Composite_0@[34] is U32
        &&& s->Composite_0@[35] is U32
    }

    /// The shape this kind is stored in.
    pub fn shape() -> (r: Shape)
        ensures
            Self::is_shape(r),
    {
        let mut fs: Vec<Shape> = Vec::new();
        fs.push(Shape::I32);
        fs.push(Shape::Str);
        fs.push(Shape::I32);
        fs.push(CmlString::shape());
        fs.push(Shape::I32);
        fs.push(Shape::I32);
        fs.push(Shape::I32);
        fs.push(Shape::Sequence(Box::new(Shape::I32)));
        fs.push(Shape::Sequence(Box::new(Shape::I32)));
        fs.push(Shape::I32);
        fs.push(Shape::I32);
        fs.push(Shape::Sequence(Box::new(VictoryCondition::shape())));
        fs.push(Shape::Sequence(Box::new(DefeatCondition::shape())));
        fs.push(Shape::I32);
        fs.push(Shape::I32);
        fs.push(Shape::I32);
        fs.push(Shape::Str);
        fs.push(Shape::I32);
        fs.push(Shape::I32);
        fs.push(Shape::I32);
        fs.push(Shape::I32);
        fs.push(Shape::Sequence(Box::new(Shape::I32)));
        fs.push(Shape::Sequence(Box::new(Shape::I32)));
        fs.push(Shape::I32);
        fs.push(Shape::I32);
        fs.push(Shape::I32);
        fs.push(Shape::I32);
        fs.push(Shape::Sequence(Box::new(Shape::I32)));
        fs.push(Shape::I32);
        fs.push(Shape::Sequence(Box::new(Shape::I32)));
        fs.push(Shape::Sequence(Box::new(Shape::I32)));
        fs.push(Shape::I32);
        fs.push(Shape::I32);
        fs.push(Shape::U32);
        fs.push(Shape::U32);
        fs.push(Shape::U32);
        Shape::Composite(fs)
    }

    /// The record as a value to encode.
    pub fn to_value(&self) -> (r: Value)
        ensures
            r@ == self.datum(),
    {
        let mut items: Vec<Value> = Vec::new();
        items.push(Value::I32(self.id));
        items.push(Value::Str(self.enum_name.clone()));
        items.push(Value::I32(self.ref_id));
        items.push(self.name.to_value());
        items.push(Value::I32(self.map_id));
        items.push(Value::I32(self.map_type));
        items.push(Value::I32(self.area_id));
        items.push(i32s_to_value(self.cond_on_flag.as_slice()));
        items.push(i32s_to_value(self.cond_off_flag.as_slice()));
        items.push(Value::I32(self.bonus_rank));
        items.push(Value::I32(self.stage_mission));
        items.push(victory_condition_list_to_value(&self.victory_list));
        items.push(defeat_condition_list_to_value(&self.defeat_list));
        items.push(Value::I32(self.condition_text));
        items.push(Value::I32(self.bgm_no));
        items.push(Value::I32(self.tex_id));
        items.push(Value::Str(self.meta_script.clone()));
        items.push(Value::I32(self.start_demo_no));
        items.push(Value::I32(self.end_event_no));
        items.push(Value::I32(self.lose_event_no));
        items.push(Value::I32(self.kind));
        items.push(i32s_to_value(self.start_pos.as_slice()));
        items.push(i32s_to_value(self.goal_pos.as_slice()));
        items.push(Value::I32(self.sortie_direction));
        items.push(Value::I32(self.sortie_stock));
        items.push(Value::I32(self.placement_town_id));
        items.push(Value::I32(self.placement_battle_id));
        items.push(i32s_to_value(self.placement_enemy_base_panel_id.as_slice()));
        items.push(Value::I32(self.geo_panel_id));
        items.push(i32s_to_value(self.clear_on_flag.as_slice()));
        items.push(i32s_to_value(self.clear_off_flag.as_slice()));
        items.push(Value::I32(self.difficulty));
        items.push(Value::I32(self.version));
        items.push(Value::U32(self.region));
        items.push(Value::U32(self.product));
        items.push(Value::U32(self.platform));
        proof {
            lemma_values_view_all(items@);
            assert(values_view(items@) =~= self.datum()->List_0);
        }
        Value::List(items)
    }

    /// The record a decoded value holds; `None` where no record of this kind
    /// is that value.
    #[verifier::rlimit(80)]
    pub fn from_value(v: &Value) -> (r: Option<Self>)
        ensures
            match r {
                Some(x) => x.datum() == v@,
                None => forall|x: Self| #[trigger] x.datum() != v@,
            },
    {
        let items = match v {
            Value::List(items) => items,
            _ => return None,
        };
        proof {
            lemma_values_view_all(items@);
        }
        if items.len() != 36 {
            return None;
        }
        let id = match &items[0] {
            Value::I32(x) => *x,
            _ => return None,
        };
        let enum_name = match &items[1] {
            Value::Str(s) => s.clone(),
            _ => return None,
        };
        let ref_id = match &items[2] {
            Value::I32(x) => *x,
            _ => return None,
        };
        let name = match CmlString::from_value(&items[3]) {
            Some(x) => x,
            None => {
                assert forall|x: Self| #[trigger] x.datum() != v@ by {
                    if x.datum() == v@ {
                        assert(x.datum()->List_0[3] == items@[3]@);
                    }
                }
                return None;
            },
        };
        let map_id = match &items[4] {
            Value::I32(x) => *x,
            _ => return None,
        };
        let map_type = match &items[5] {
            Value::I32(x) => *x,
            _ => return None,
        };
        let area_id = match &items[6] {
            Value::I32(x) => *x,
            _ => return None,
        };
        let cond_on_flag = match i32s_from_value(&items[7]) {
            Some(x) => x,
            None => {
                assert forall|x: Self| #[trigger] x.datum() != v@ by {
                    if x.datum() == v@ {
                        assert(x.datum()->List_0[7] == items@[7]@);
                    }
                }
                return None;
            },
        };
        let cond_off_flag = match i32s_from_value(&items[8]) {
            Some(x) => x,
            None => {
                assert forall|x: Self| #[trigger] x.datum() != v@ by {
                    if x.datum() == v@ {
                        assert(x.datum()->List_0[8] == items@[8]@);
                    }
                }
                return None;
            },
        };
        let bonus_rank = match &items[9] {
            Value::I32(x) => *x,
            _ => return None,
        };
        let stage_mission = match &items[10] {
            Value::I32(x) => *x,
            _ => return None,
        };
        let victory_list = match victory_condition_list_from_value(&items[11]) {
            Some(x) => x,
            None => {
                assert forall|x: Self| #[trigger] x.datum() != v@ by {
                    if x.datum() == v@ {
                        assert(x.datum()->List_0[11] == items@[11]@);
                    }
                }
                return None;
            },
        };
        let defeat_list = match defeat_condition_list_from_value(&items[12]) {
            Some(x) => x,
            None => {
                assert forall|x: Self| #[trigger] x.datum() != v@ by {
                    if x.datum() == v@ {
                        assert(x.datum()->List_0[12] == items@[12]@);
                    }
                }
                return None;
            },
        };
        let condition_text = match &items[13] {
            Value::I32(x) => *x,
            _ => return None,
        };
        let bgm_no = match &items[14] {
            Value::I32(x) => *x,
            _ => return None,
        };
        let tex_id = match &items[15] {
            Value::I32(x) => *x,
            _ => return None,
        };
        let meta_script = match &items[16] {
            Value::Str(s) => s.clone(),
            _ => return None,
        };
        let start_demo_no = match &items[17] {
            Value::I32(x) => *x,
            _ => return None,
        };
        let end_event_no = match &items[18] {
            Value::I32(x) => *x,
            _ => return None,
        };
        let lose_event_no = match &items[19] {
            Value::I32(x) => *x,
            _ => return None,
        };
        let kind = match &items[20] {
            Value::I32(x) => *x,
            _ => return None,
        };
        let start_pos = match i32s_from_value(&items[21]) {
            Some(x) => x,
            None => {
                assert forall|x: Self| #[trigger] x.datum() != v@ by {
                    if x.datum() == v@ {
                        assert(x.datum()->List_0[21] == items@[21]@);
                    }
                }
                return None;
            },
        };
        let goal_pos = match i32s_from_value(&items[22]) {
            Some(x) => x,
            None => {
                assert forall|x: Self| #[trigger] x.datum() != v@ by {
                    if x.datum() == v@ {
                        assert(x.datum()->List_0[22] == items@[22]@);
                    }
                }
                return None;
            },
        };
        let sortie_direction = match &items[23] {
            Value::I32(x) => *x,
            _ => return None,
        };
        let sortie_stock = match &items[24] {
            Value::I32(x) => *x,
            _ => return None,
        };
        let placement_town_id = match &items[25] {
            Value::I32(x) => *x,
            _ => return None,
        };
        let placement_battle_id = match &items[26] {
            Value::I32(x) => *x,
            _ => return None,
        };
        let placement_enemy_base_panel_id = match i32s_from_value(&items[27]) {
            Some(x) => x,
            None => {
                assert forall|x: Self| #[trigger] x.datum() != v@ by {
                    if x.datum() == v@ {
                        assert(x.datum()->List_0[27] == items@[27]@);
                    }
                }
                return None;
            },
        };
        let geo_panel_id = match &items[28] {
            Value::I32(x) => *x,
            _ => return None,
        };
        let clear_on_flag = match i32s_from_value(&items[29]) {
            Some(x) => x,
            None => {
                assert forall|x: Self| #[trigger] x.datum() != v@ by {
                    if x.datum() == v@ {
                        assert(x.datum()->List_0[29] == items@[29]@);
                    }
                }
                return None;
            },
        };
        let clear_off_flag = match i32s_from_value(&items[30]) {
            Some(x) => x,
            None => {
                assert forall|x: Self| #[trigger] x.datum() != v@ by {
                    if x.datum() == v@ {
                        assert(x.datum()->List_0[30] == items@[30]@);
                    }
                }
                return None;
            },
        };
        let difficulty = match &items[31] {
            Value::I32(x) => *x,
            _ => return None,
        };
        let version = match &items[32] {
            Value::I32(x) => *x,
            _ => return None,
        };
        let region = match &items[33] {
            Value::U32(x) => *x,
            _ => return None,
        };
        let product = match &items[34] {
            Value::U32(x) => *x,
            _ => return None,
        };
        let platform = match &items[35] {
            Value::U32(x) => *x,
            _ => return None,
        };
        let r = StageData { id, enum_name, ref_id, name, map_id, map_type, area_id, cond_on_flag, cond_off_flag, bonus_rank, stage_mission, victory_list, defeat_list, condition_text, bgm_no, tex_id, meta_script, start_demo_no, end_event_no, lose_event_no, kind, start_pos, goal_pos, sortie_direction, sortie_stock, placement_town_id, placement_battle_id, placement_enemy_base_panel_id, geo_panel_id, clear_on_flag, clear_off_flag, difficulty, version, region, product, platform };
        assert(r.datum()->List_0 =~= values_view(items@));
        Some(r)
    }
}

impl DatabaseRecord for StageData {
    open spec fn spec_id(&self) -> i32 {
        self.id
    }

    open spec fn spec_enum_name(&self) -> Seq<char> {
        self.enum_name@
    }

    fn database_id(&self) -> (r: i32) {
        self.id
    }

    fn database_enum_name(&self) -> (r: &str) {
        self.enum_name.as_str()
    }
}

/// A wish the dark assembly can grant.
pub struct WishData {
    pub id: i32,
    pub enum_name: String,
    pub name: CmlString,
    pub help_text: CmlString,
    pub no: i32,
    pub rank: i32,
    pub difficulty: i32,
    pub bonus_rank: i32,
    pub cost: i32,
    pub correction: i32,
    pub required_level: i32,
    pub bribe_base: i64,
    pub bribe_correction: i32,
    pub is_vote: i32,
    pub is_use_once: i32,
    pub condition_on_flag: Vec<i32>,
    pub condition_off_flag: Vec<i32>,
    pub set_flag_on: Vec<i32>,
    pub set_flag_off: Vec<i32>,
    pub version: i32,
    pub region: u32,
    pub product: u32,
}

impl WishData {
    /// The record as data: its fields in declaration order.
    pub open spec fn datum(&self) -> Datum {
        Datum::List(seq![
            Datum::I32(self.id),
            Datum::Str(self.enum_name@),
            self.name.datum(),
            self.help_text.datum(),
            Datum::I32(self.no),
            Datum::I32(self.rank),
            Datum::I32(self.difficulty),
            Datum::I32(self.bonus_rank),
            Datum::I32(self.cost),
            Datum::I32(self.correction),
            Datum::I32(self.required_level),
            Datum::I64(self.bribe_base),
            Datum::I32(self.bribe_correction),
            Datum::I32(self.is_vote),
            Datum::I32(self.is_use_once),
            i32s_datum(self.condition_on_flag@),
            i32s_datum(self.condition_off_flag@),
            i32s_datum(self.set_flag_on@),
            i32s_datum(self.set_flag_off@),
            Datum::I32(self.version),
            Datum::U32(self.region),
            Datum::U32(self.product),
        ])
    }

    /// Whether `s` is the shape this kind is stored in.
    pub open spec fn is_shape(s: Shape) -> bool {
        &&& s is Composite
        &&& s->Composite_0@.len() == 22
        &&& s->Composite_0@[0] is I32
        &&& s->Composite_0@[1] is Str
        &&& CmlString::is_shape(s->Composite_0@[2])
        &&& CmlString::is_shape(s->Composite_0@[3])
        &&& s->Composite_0@[4] is I32
        &&& s->Composite_0@[5] is I32
        &&& s->Composite_0@[6] is I32
        &&& s->Composite_0@[7] is I32
        &&& s->Composite_0@[8] is I32
        &&& s->Composite_0@[9] is I32
        &&& s->Composite_0@[10] is I32
        &&& s->Composite_0@[11] is I64
        &&& s->Composite_0@[12] is I32
        &&& s->Composite_0@[13] is I32
        &&& s->Composite_0@[14] is I32
        &&& (s->Composite_0@[15] matches Shape::Sequence(el) && *el is I32)
        &&& (s->Composite_0@[16] matches Shape::Sequence(el) && *el is I32)
        &&& (s->Composite_0@[17] matches Shape::Sequence(el) && *el is I32)
        &&& (s->Composite_0@[18] matches Shape::Sequence(el) && *el is I32)
        &&& s->Composite_0@[19] is I32
        &&& s->Composite_0@[20] is U32
        &&& s->Composite_0@[21] is U32
    }

    /// The shape this kind is stored in.
    pub fn shape() -> (r: Shape)
        ensures
            Self::is_shape(r),
    {
        let mut fs: Vec<Shape> = Vec::new();
        fs.push(Shape::I32);
        fs.push(Shape::Str);
        fs.push(CmlString::shape());
        fs.push(CmlString::shape());
        fs.push(Shape::I32);
        fs.push(Shape::I32);
        fs.push(Shape::I32);
        fs.push(Shape::I32);
        fs.push(Shape::I32);
        fs.push(Shape::I32);
        fs.push(Shape::I32);
        fs.push(Shape::I64);
        fs.push(Shape::I32);
        fs.push(Shape::I32);
        fs.push(Shape::I32);
        fs.push(Shape::Sequence(Box::new(Shape::I32)));
        fs.push(Shape::Sequence(Box::new(Shape::I32)));
        fs.push(Shape::Sequence(Box::new(Shape::I32)));
        fs.push(Shape::Sequence(Box::new(Shape::I32)));
        fs.push(Shape::I32);
        fs.push(Shape::U32);
        fs.push(Shape::U32);
        Shape::Composite(fs)
    }

    /// The record as a value to encode.
    pub fn to_value(&self) -> (r: Value)
        ensures
            r@ == self.datum(),
    {
        let mut items: Vec<Value> = Vec::new();
        items.push(Value::I32(self.id));
        items.push(Value::Str(self.enum_name.clone()));
        items.push(self.name.to_value());
        items.push(self.help_text.to_value());
        items.push(Value::I32(self.no));
        items.push(Value::I32(self.rank));
        items.push(Value::I32(self.difficulty));
        items.push(Value::I32(self.bonus_rank));
        items.push(Value::I32(self.cost));
        items.push(Value::I32(self.correction));
        items.push(Value::I32(self.required_level));
        items.push(Value::I64(self.bribe_base));
        items.push(Value::I32(self.bribe_correction));
        items.push(Value::I32(self.is_vote));
        items.push(Value::I32(self.is_use_once));
        items.push(i32s_to_value(self.condition_on_flag.as_slice()));
        items.push(i32s_to_value(self.condition_off_flag.as_slice()));
        items.push(i32s_to_value(self.set_flag_on.as_slice()));
        items.push(i32s_to_value(self.set_flag_off.as_slice()));
        items.push(Value::I32(self.version));
        items.push(Value::U32(self.region));
        items.push(Value::U32(self.product));
        proof {
            lemma_values_view_all(items@);
            assert(values_view(items@) =~= self.datum()->List_0);
        }
        Value::List(items)
    }

    /// The record a decoded value holds; `None` where no record of this kind
    /// is that value.
    #[verifier::rlimit(80)]
    pub fn from_value(v: &Value) -> (r: Option<Self>)
        ensures
            match r {
                Some(x) => x.datum() == v@,
                None => forall|x: Self| #[trigger] x.datum() != v@,
            },
    {
        let items = match v {
            Value::List(items) => items,
            _ => return None,
        };
        proof {
            lemma_values_view_all(items@);
        }
        if items.len() != 22 {
            return None;
        }
        let id = match &items[0] {
            Value::I32(x) => *x,
            _ => return None,
        };
        let enum_name = match &items[1] {
            Value::Str(s) => s.clone(),
            _ => return None,
        };
        let name = match CmlString::from_value(&items[2]) {
            Some(x) => x,
            None => {
                assert forall|x: Self| #[trigger] x.datum() != v@ by {
                    if x.datum() == v@ {
                        assert(x.datum()->List_0[2] == items@[2]@);
                    }
                }
                return None;
            },
        };
        let help_text = match CmlString::from_value(&items[3]) {
            Some(x) => x,
            None => {
                assert forall|x: Self| #[trigger] x.datum() != v@ by {
                    if x.datum() == v@ {
                        assert(x.datum()->List_0[3] == items@[3]@);
                    }
                }
                return None;
            },
        };
        let no = match &items[4] {
            Value::I32(x) => *x,
            _ => return None,
        };
        let rank = match &items[5] {
            Value::I32(x) => *x,
            _ => return None,
        };
        let difficulty = match &items[6] {
            Value::I32(x) => *x,
            _ => return None,
        };
        let bonus_rank = match &items[7] {
            Value::I32(x) => *x,
            _ => return None,
        };
        let cost = match &items[8] {
            Value::I32(x) => *x,
            _ => return None,
        };
        let correction = match &items[9] {
            Value::I32(x) => *x,
            _ => return None,
        };
        let required_level = match &items[10] {
            Value::I32(x) => *x,
            _ => return None,
        };
        let bribe_base = match &items[11] {
            Value::I64(x) => *x,
            _ => return None,
        };
        let bribe_correction = match &items[12] {
            Value::I32(x) => *x,
            _ => return None,
        };
        let is_vote = match &items[13] {
            Value::I32(x) => *x,
            _ => return None,
        };
        let is_use_once = match &items[14] {
            Value::I32(x) => *x,
            _ => return None,
        };
        let condition_on_flag = match i32s_from_value(&items[15]) {
            Some(x) => x,
            None => {
                assert forall|x: Self| #[trigger] x.datum() != v@ by {
                    if x.datum() == v@ {
                        assert(x.datum()->List_0[15] == items@[15]@);
                    }
                }
                return None;
            },
        };
        let condition_off_flag = match i32s_from_value(&items[16]) {
            Some(x) => x,
            None => {
                assert forall|x: Self| #[trigger] x.datum() != v@ by {
                    if x.datum() == v@ {
                        assert(x.datum()->List_0[16] == items@[16]@);
                    }
                }
                return None;
            },
        };
        let set_flag_on = match i32s_from_value(&items[17]) {
            Some(x) => x,
            None => {
                assert forall|x: Self| #[trigger] x.datum() != v@ by {
                    if x.datum() == v@ {
                        assert(x.datum()->List_0[17] == items@[17]@);
                    }
                }
                return None;
            },
        };
        let set_flag_off = match i32s_from_value(&items[18]) {
            Some(x) => x,
            None => {
                assert forall|x: Self| #[trigger] x.datum() != v@ by {
                    if x.datum() == v@ {
                        assert(x.datum()->List_0[18] == items@[18]@);
                    }
                }
                return None;
            },
        };
        let version = match &items[19] {
            Value::I32(x) => *x,
            _ => return None,
        };
        let region = match &items[20] {
            Value::U32(x) => *x,
            _ => return None,
        };
        let product = match &items[21] {
            Value::U32(x) => *x,
            _ => return None,
        };
        let r = WishData { id, enum_name, name, help_text, no, rank, difficulty, bonus_rank, cost, correction, required_level, bribe_base, bribe_correction, is_vote, is_use_once, condition_on_flag, condition_off_flag, set_flag_on, set_flag_off, version, region, product };
        assert(r.datum()->List_0 =~= values_view(items@));
        Some(r)
    }
}

impl DatabaseRecord for WishData {
    open spec fn spec_id(&self) -> i32 {
        self.id
    }

    open spec fn spec_enum_name(&self) -> Seq<char> {
        self.enum_name@
    }

    fn database_id(&self) -> (r: i32) {
        self.id
    }

    fn database_enum_name(&self) -> (r: &str) {
        self.enum_name.as_str()
    }
}

/// When a weapon mastery level teaches an action.
pub struct ActLearnData {
    pub id: i32,
    pub enum_name: String,
    pub comment: String,
    pub act_id: i32,
    pub weapon_type: i32,
    pub need_wm_lv: i32,
    pub version: i32,
    pub region: u32,
    pub product: u32,
    pub platform: u32,
}

impl ActLearnData {
    /// The record as data: its fields in declaration order.
    pub open spec fn datum(&self) -> Datum {
        Datum::List(seq![
            Datum::I32(self.id),
            Datum::Str(self.enum_name@),
            Datum::Str(self.comment@),
            Datum::I32(self.act_id),
            Datum::I32(self.weapon_type),
            Datum::I32(self.need_wm_lv),
            Datum::I32(self.version),
            Datum::U32(self.region),
            Datum::U32(self.product),
            Datum::U32(self.platform),
        ])
    }

    /// Whether `s` is the shape this kind is stored in.
    pub open spec fn is_shape(s: Shape) -> bool {
        &&& s is Composite
        &&& s->Composite_0@.len() == 10
        &&& s->Composite_0@[0] is I32
        &&& s->Composite_0@[1] is Str
        &&& s->Composite_0@[2] is Str
        &&& s->Composite_0@[3] is I32
        &&& s->Composite_0@[4] is I32
        &&& s->Composite_0@[5] is I32
        &&& s->Composite_0@[6] is I32
        &&& s->Composite_0@[7] is U32
        &&& s->Composite_0@[8] is U32
        &&& s->Composite_0@[9] is U32
    }

    /// The shape this kind is stored in.
    pub fn shape() -> (r: Shape)
        ensures
            Self::is_shape(r),
    {
        let mut fs: Vec<Shape> = Vec::new();
        fs.push(Shape::I32);
        fs.push(Shape::Str);
        fs.push(Shape::Str);
        fs.push(Shape::I32);
        fs.push(Shape::I32);
        fs.push(Shape::I32);
        fs.push(Shape::I32);
        fs.push(Shape::U32);
        fs.push(Shape::U32);
        fs.push(Shape::U32);
        Shape::Composite(fs)
    }

    /// The record as a value to encode.
    pub fn to_value(&self) -> (r: Value)
        ensures
            r@ == self.datum(),
    {
        let mut items: Vec<Value> = Vec::new();
        items.push(Value::I32(self.id));
        items.push(Value::Str(self.enum_name.clone()));
        items.push(Value::Str(self.comment.clone()));
        items.push(Value::I32(self.act_id));
        items.push(Value::I32(self.weapon_type));
        items.push(Value::I32(self.need_wm_lv));
        items.push(Value::I32(self.version));
        items.push(Value::U32(self.region));
        items.push(Value::U32(self.product));
        items.push(Value::U32(self.platform));
        proof {
            lemma_values_view_all(items@);
            assert(values_view(items@) =~= self.datum()->List_0);
        }
        Value::List(items)
    }

    /// The record a decoded value holds; `None` where no record of this kind
    /// is that value.
    pub fn from_value(v: &Value) -> (r: Option<Self>)
        ensures
            match r {
                Some(x) => x.datum() == v@,
                None => forall|x: Self| #[trigger] x.datum() != v@,
            },
    {
        let items = match v {
            Value::List(items) => items,
            _ => return None,
        };
        proof {
            lemma_values_view_all(items@);
        }
        if items.len() != 10 {
            return None;
        }
        let id = match &items[0] {
            Value::I32(x) => *x,
            _ => return None,
        };
        let enum_name = match &items[1] {
            Value::Str(s) => s.clone(),
            _ => return None,
        };
        let comment = match &items[2] {
            Value::Str(s) => s.clone(),
            _ => return None,
        };
        let act_id = match &items[3] {
            Value::I32(x) => *x,
            _ => return None,
        };
        let weapon_type = match &items[4] {
            Value::I32(x) => *x,
            _ => return None,
        };
        let need_wm_lv = match &items[5] {
            Value::I32(x) => *x,
            _ => return None,
        };
        let version = match &items[6] {
            Value::I32(x) => *x,
            _ => return None,
        };
        let region = match &items[7] {
            Value::U32(x) => *x,
            _ => return None,
        };
        let product = match &items[8] {
            Value::U32(x) => *x,
            _ => return None,
        };
        let platform = match &items[9] {
            Value::U32(x) => *x,
            _ => return None,
        };
        let r = ActLearnData { id, enum_name, comment, act_id, weapon_type, need_wm_lv, version, region, product, platform };
        assert(r.datum()->List_0 =~= values_view(items@));
        Some(r)
    }
}

impl DatabaseRecord for ActLearnData {
    open spec fn spec_id(&self) -> i32 {
        self.id
    }

    open spec fn spec_enum_name(&self) -> Seq<char> {
        self.enum_name@
    }

    fn database_id(&self) -> (r: i32) {
        self.id
    }

    fn database_enum_name(&self) -> (r: &str) {
        self.enum_name.as_str()
    }
}

} // verus!
