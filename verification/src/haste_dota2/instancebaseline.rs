//! Baseline data of each entity class, taken from the `instancebaseline` string table.

use vstd::prelude::*;

verus! {

/// Error of a baseline update.
#[derive(Debug, Clone, Copy, PartialEq, Eq, Structural)]
pub enum Error {
    /// A table entry's name is not a decimal `i32`.
    ParseIntError,
}

/// Name of the string table that holds the baselines.
pub const INSTANCE_BASELINE_TABLE_NAME: &'static str = "instancebaseline";

/// An entry of the baselines' string table: its name (the class id in decimal) and its data.
pub struct BaselineItem {
    pub string: Vec<u8>,
    pub user_data: Option<Vec<u8>>,
}

/// Whether a byte is an ASCII decimal digit.
pub open spec fn is_digit(b: u8) -> bool {
    48 <= b <= 57
}

/// The value of a string of decimal digits.
pub open spec fn decimal(s: Seq<u8>) -> int
    decreases s.len(),
{
    if s.len() == 0 {
        0
    } else {
        decimal(s.drop_last()) * 10 + (s.last() - 48)
    }
}

/// Whether `s` starts with a minus sign.
pub open spec fn negative(s: Seq<u8>) -> bool {
    s.len() > 0 && s[0] == 45
}

/// `s` without its leading sign, if it has one.
pub open spec fn unsigned_part(s: Seq<u8>) -> Seq<u8> {
    if s.len() > 0 && (s[0] == 45 || s[0] == 43) {
        s.skip(1)
    } else {
        s
    }
}

/// Whether every byte of `s` is a decimal digit.
pub open spec fn all_digits(s: Seq<u8>) -> bool {
    forall|i: int| 0 <= i < s.len() ==> is_digit(#[trigger] s[i])
}

/// What `str::parse::<i32>` gives for `s`: an optional `+` or `-`, then one or more decimal
/// digits whose signed value fits in an `i32`; anything else is no number.
pub open spec fn parse_i32_spec(s: Seq<u8>) -> Option<i32> {
    let body = unsigned_part(s);
    let v = if negative(s) {
        -decimal(body)
    } else {
        decimal(body)
    };
    if body.len() > 0 && all_digits(body) && i32::MIN <= v <= i32::MAX {
        Some(v as i32)
    } else {
        None
    }
}

/// An accumulated magnitude, held at 2^32 once it gets there (no `i32` is that large).
spec fn capped(v: int) -> int {
    if v < 0x1_0000_0000 {
        v
    } else {
        0x1_0000_0000
    }
}

/// Parses a class id the way `str::parse::<i32>` does: see [`parse_i32_spec`].
fn parse_class_id(s: &[u8]) -> (r: Result<i32, Error>)
    ensures
        r matches Ok(v) ==> parse_i32_spec(s@) == Some(v),
        r is Err ==> parse_i32_spec(s@) is None,
{
    let len = s.len();
    let mut start: usize = 0;
    let mut neg = false;
    if len > 0 && (s[0] == 45u8 || s[0] == 43u8) {
        start = 1;
        neg = s[0] == 45u8;
    }
    let ghost body = s@.skip(start as int);
    proof {
        assert(s@.skip(0) =~= s@);
        assert(neg == negative(s@));
        assert(body == unsigned_part(s@));
    }
    if start >= len {
        return Err(Error::ParseIntError);
    }
    let mut acc: u64 = 0;
    let mut i: usize = start;
    while i < len
        invariant
            start <= i <= len,
            len == s@.len(),
            body == s@.skip(start as int),
            body == unsigned_part(s@),
            neg == negative(s@),
            acc == capped(decimal(body.subrange(0, i - start))),
            forall|j: int| 0 <= j < i - start ==> is_digit(#[trigger] body[j]),
            decimal(body.subrange(0, i - start)) >= 0,
        decreases len - i,
    {
        let b = s[i];
        if b < 48u8 || b > 57u8 {
            proof {
                assert(body[i - start] == s@[i as int]);
                assert(!is_digit(body[i - start]));
                assert(!all_digits(body));
            }
            return Err(Error::ParseIntError);
        }
        proof {
            assert(body.subrange(0, i + 1 - start).drop_last() =~= body.subrange(0, i - start));
        }
        let next = acc * 10 + (b - 48u8) as u64;
        acc = if next < 0x1_0000_0000u64 {
            next
        } else {
            0x1_0000_0000u64
        };
        i = i + 1;
    }
    proof {
        assert(body.subrange(0, i - start) =~= body);
    }
    if neg {
        if acc > 0x8000_0000u64 {
            return Err(Error::ParseIntError);
        }
        if acc == 0x8000_0000u64 {
            return Ok(-2147483648i32);
        }
        Ok(-(acc as i32))
    } else {
        if acc > 0x7fff_ffffu64 {
            return Err(Error::ParseIntError);
        }
        Ok(acc as i32)
    }
}

/// The index of the first item whose name is no class id, or the number of items.
pub open spec fn first_unparsable(items: Seq<(Seq<u8>, Option<Seq<u8>>)>) -> int
    decreases items.len(),
{
    if items.len() == 0 {
        0
    } else if parse_i32_spec(items[0].0) is None {
        0
    } else {
        1 + first_unparsable(items.skip(1))
    }
}

/// The baselines after storing each item's data at the class its name gives, in order.
pub open spec fn store_items(
    data: Seq<Option<Seq<u8>>>,
    items: Seq<(Seq<u8>, Option<Seq<u8>>)>,
) -> Seq<Option<Seq<u8>>>
    decreases items.len(),
{
    if items.len() == 0 {
        data
    } else {
        let last = items.last();
        store_items(data, items.drop_last()).update(
            parse_i32_spec(last.0)->0 as int,
            last.1,
        )
    }
}

/// `data` grown with empty entries to `classes` entries, if it had fewer.
pub open spec fn grown(data: Seq<Option<Seq<u8>>>, classes: nat) -> Seq<Option<Seq<u8>>> {
    if data.len() < classes {
        data + Seq::new((classes - data.len()) as nat, |i: int| None::<Seq<u8>>)
    } else {
        data
    }
}

/// The plain value of a table entry.
pub open spec fn item_view(item: BaselineItem) -> (Seq<u8>, Option<Seq<u8>>) {
    (
        item.string@,
        match item.user_data {
            Some(v) => Some(v@),
            None => None,
        },
    )
}

/// Baseline data of each entity class, indexed by class id.
pub struct InstanceBaseline {
    data: Vec<Option<Vec<u8>>>,
}

impl InstanceBaseline {
    /// The data of each class, by class id.
    pub closed spec fn classes(&self) -> Seq<Option<Seq<u8>>> {
        self.data@.map_values(
            |o: Option<Vec<u8>>|
                match o {
                    Some(v) => Some(v@),
                    None => None,
                },
        )
    }

    /// No class has data.
    pub fn default() -> (r: Self)
        ensures
            r.classes() == Seq::<Option<Seq<u8>>>::empty(),
    {
        let r = Self { data: Vec::new() };
        proof {
            assert(r.classes() =~= Seq::<Option<Seq<u8>>>::empty());
        }
        r
    }

    /// Stores the data of each item at the class id its name gives, after growing the table to
    /// `classes` entries. Stops at the first name that is no `i32`, with that error; the items
    /// before it stay stored.
    pub fn update(&mut self, items: &[BaselineItem], classes: usize) -> (r: Result<(), Error>)
        requires
            forall|i: int|
                0 <= i < first_unparsable(items@.map_values(|it: BaselineItem| item_view(it)))
                    ==> {
                    let v = parse_i32_spec(#[trigger] items@[i].string@)->0;
                    0 <= v && (v < old(self).classes().len() || v < classes)
                },
        ensures
            ({
                let iv = items@.map_values(|it: BaselineItem| item_view(it));
                let k = first_unparsable(iv);
                &&& r is Ok <==> k == iv.len()
                &&& final(self).classes() == store_items(
                    grown(old(self).classes(), classes as nat),
                    iv.take(k),
                )
            }),
    {
        let ghost iv = items@.map_values(|it: BaselineItem| item_view(it));
        let ghost start = grown(self.classes(), classes as nat);
        if self.data.len() < classes {
            while self.data.len() < classes
                invariant
                    self.data.len() <= classes,
                    self.classes() == grown(old(self).classes(), classes as nat).take(
                        self.data.len() as int,
                    ),
                    old(self).classes().len() <= self.data.len(),
                decreases classes - self.data.len(),
            {
                let ghost before = self.classes();
                self.data.push(None);
                proof {
                    assert(self.classes() =~= grown(old(self).classes(), classes as nat).take(
                        self.data.len() as int,
                    ));
                }
            }
        }
        proof {
            assert(self.classes() =~= start);
            lemma_first_unparsable_bounds(iv);
        }
        let mut i: usize = 0;
        while i < items.len()
            invariant
                i <= items.len(),
                iv == items@.map_values(|it: BaselineItem| item_view(it)),
                i <= first_unparsable(iv),
                self.classes().len() == start.len(),
                start.len() >= classes,
                start.len() >= old(self).classes().len(),
                start == grown(old(self).classes(), classes as nat),
                self.classes() == store_items(start, iv.take(i as int)),
                forall|j: int|
                    0 <= j < first_unparsable(iv) ==> {
                        let v = parse_i32_spec(#[trigger] items@[j].string@)->0;
                        0 <= v && (v < old(self).classes().len() || v < classes)
                    },
            decreases items.len() - i,
        {
            let class_id = match parse_class_id(items[i].string.as_slice()) {
                Ok(v) => v,
                Err(e) => {
                    proof {
                        lemma_first_unparsable_at(iv, i as int);
                    }
                    return Err(e);
                },
            };
            proof {
                assert(iv[i as int].0 == items@[i as int].string@);
                if i as int == first_unparsable(iv) {
                    lemma_first_unparsable_stop(iv, i as int);
                }
                assert(iv.take(i + 1).drop_last() =~= iv.take(i as int));
                assert(iv[i as int].0 == items@[i as int].string@);
            }
            let data = match &items[i].user_data {
                Some(v) => Some(copy_bytes(v)),
                None => None,
            };
            let ghost before = self.classes();
            self.data.set(class_id as usize, data);
            proof {
                assert(self.classes() =~= before.update(class_id as int, iv[i as int].1));
            }
            i = i + 1;
        }
        proof {
            assert(iv.take(i as int) =~= iv);
        }
        Ok(())
    }

    /// The data of class `class_id`.
    pub fn by_id_unchecked(&self, class_id: i32) -> (r: &Vec<u8>)
        requires
            0 <= class_id < self.classes().len(),
            self.classes()[class_id as int] is Some,
        ensures
            r@ == self.classes()[class_id as int]->0,
    {
        match &self.data[class_id as usize] {
            Some(v) => v,
            None => {
                proof {
                    assert(self.classes()[class_id as int] is None);
                }
                &self.data[0].as_ref().unwrap()
            },
        }
    }

    /// Removes every class's data.
    pub fn clear(&mut self)
        ensures
            final(self).classes() == Seq::<Option<Seq<u8>>>::empty(),
    {
        self.data.clear();
        proof {
            assert(self.classes() =~= Seq::<Option<Seq<u8>>>::empty());
        }
    }
}

/// A copy of bytes.
fn copy_bytes(v: &Vec<u8>) -> (r: Vec<u8>)
    ensures
        r@ == v@,
{
    let mut r: Vec<u8> = Vec::with_capacity(v.len());
    let mut i: usize = 0;
    while i < v.len()
        invariant
            i <= v.len(),
            r@ == v@.take(i as int),
        decreases v.len() - i,
    {
        r.push(v[i]);
        i = i + 1;
        proof {
            assert(r@ =~= v@.take(i as int));
        }
    }
    proof {
        assert(v@.take(i as int) =~= v@);
    }
    r
}

proof fn lemma_first_unparsable_bounds(items: Seq<(Seq<u8>, Option<Seq<u8>>)>)
    ensures
        0 <= first_unparsable(items) <= items.len(),
    decreases items.len(),
{
    if items.len() > 0 && parse_i32_spec(items[0].0) is Some {
        lemma_first_unparsable_bounds(items.skip(1));
    }
}

/// Every item before the first unparsable one parses.
proof fn lemma_first_unparsable_prefix(items: Seq<(Seq<u8>, Option<Seq<u8>>)>, i: int)
    requires
        0 <= i < first_unparsable(items),
    ensures
        parse_i32_spec(items[i].0) is Some,
    decreases items.len(),
{
    lemma_first_unparsable_bounds(items);
    if i > 0 {
        assert(items.skip(1)[i - 1] == items[i]);
        lemma_first_unparsable_prefix(items.skip(1), i - 1);
    }
}

/// The first unparsable item, where there is one, does not parse.
proof fn lemma_first_unparsable_stop(items: Seq<(Seq<u8>, Option<Seq<u8>>)>, i: int)
    requires
        i == first_unparsable(items),
        i < items.len(),
    ensures
        parse_i32_spec(items[i].0) is None,
    decreases items.len(),
{
    lemma_first_unparsable_bounds(items.skip(1));
    if i > 0 {
        assert(items.skip(1)[i - 1] == items[i]);
        lemma_first_unparsable_stop(items.skip(1), i - 1);
    }
}

/// An item that does not parse, with all before it parsing, is the first unparsable one.
proof fn lemma_first_unparsable_at(items: Seq<(Seq<u8>, Option<Seq<u8>>)>, i: int)
    requires
        0 <= i <= first_unparsable(items),
        i < items.len(),
        parse_i32_spec(items[i].0) is None,
    ensures
        first_unparsable(items) == i,
    decreases items.len(),
{
    if i > 0 {
        assert(items.skip(1)[i - 1] == items[i]);
        lemma_first_unparsable_at(items.skip(1), i - 1);
    }
}

} // verus!
