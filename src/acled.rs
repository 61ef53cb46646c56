//! Records of the armed-conflict provider, as the library reads them.
use vstd::prelude::*;

use crate::dashboard::{contains_substring, is_substring, LabelCount};
use crate::storage::str_eq;
use crate::time::{parse_ymd_date, ymd_midnight_seconds};

verus! {

/// The answer of an events query.
#[derive(Clone, Debug, Default)]
pub struct AcledResponse {
    pub success: bool,
    pub error: Option<String>,
    pub count: i64,
    pub data: Vec<AcledEvent>,
}

/// One conflict event. Coordinates are in millionths of a degree.
#[derive(Clone, Debug, Default)]
pub struct AcledEvent {
    pub event_id_cnty: String,
    /// `YYYY-MM-DD`.
    pub event_date: String,
    pub year: Option<i32>,
    pub time_precision: Option<i32>,
    pub disorder_type: String,
    pub event_type: String,
    pub sub_event_type: String,
    pub actor1: String,
    pub actor2: String,
    pub interaction: Option<i32>,
    pub country: String,
    pub iso: Option<i32>,
    pub iso3: String,
    pub region: Option<i32>,
    pub admin1: String,
    pub admin2: String,
    pub admin3: String,
    pub location: String,
    pub latitude: Option<i64>,
    pub longitude: Option<i64>,
    pub geo_precision: Option<i32>,
    pub source: String,
    pub source_scale: String,
    pub notes: String,
    pub fatalities: Option<i64>,
    pub timestamp: Option<i64>,
}

impl AcledEvent {
    /// Midnight UTC of the event date, in unix seconds, when the date parses.
    pub fn datetime(&self) -> (r: Option<i64>)
        ensures
            r matches Some(t) ==> ymd_midnight_seconds(self.event_date@) == Some(t as int),
            r is None ==> ymd_midnight_seconds(self.event_date@) is None,
    {
        parse_ymd_date(self.event_date.as_str())
    }

    /// True when the event type mentions violence against civilians.
    pub fn is_civilian_targeting(&self) -> (r: bool)
        ensures
            r == is_substring("Violence against civilians"@, self.event_type@),
    {
        contains_substring(self.event_type.as_str(), "Violence against civilians")
    }

    /// True when the event type mentions battles.
    pub fn is_battle(&self) -> (r: bool)
        ensures
            r == is_substring("Battles"@, self.event_type@),
    {
        contains_substring(self.event_type.as_str(), "Battles")
    }

    /// True when the event type mentions protests.
    pub fn is_protest(&self) -> (r: bool)
        ensures
            r == is_substring("Protests"@, self.event_type@),
    {
        contains_substring(self.event_type.as_str(), "Protests")
    }

    /// True when the event type mentions riots.
    pub fn is_riot(&self) -> (r: bool)
        ensures
            r == is_substring("Riots"@, self.event_type@),
    {
        contains_substring(self.event_type.as_str(), "Riots")
    }

    /// True when the event type mentions explosions or remote violence.
    pub fn is_explosion(&self) -> (r: bool)
        ensures
            r == (is_substring("Explosions"@, self.event_type@) || is_substring(
                "Remote violence"@,
                self.event_type@,
            )),
    {
        contains_substring(self.event_type.as_str(), "Explosions") || contains_substring(
            self.event_type.as_str(),
            "Remote violence",
        )
    }

    /// True when the event caused at least one death.
    pub fn is_lethal(&self) -> (r: bool)
        ensures
            r == (self.fatalities matches Some(f) && f > 0),
    {
        match self.fatalities {
            Some(f) => f > 0,
            None => false,
        }
    }

    /// Latitude and longitude in millionths of a degree, when both are known.
    pub fn coordinates(&self) -> (r: Option<(i64, i64)>)
        ensures
            r == (match (self.latitude, self.longitude) {
                (Some(a), Some(o)) => Some((a, o)),
                _ => None::<(i64, i64)>,
            }),
    {
        match (self.latitude, self.longitude) {
            (Some(a), Some(o)) => Some((a, o)),
            _ => None,
        }
    }
}

/// The sum of the recorded fatalities of `s`.
pub open spec fn fatality_sum(s: Seq<AcledEvent>) -> int
    decreases s.len(),
{
    if s.len() == 0 {
        0
    } else {
        fatality_sum(s.drop_last()) + match s.last().fatalities {
            Some(f) => f as int,
            None => 0,
        }
    }
}

proof fn lemma_fatality_sum_bounds(s: Seq<AcledEvent>)
    ensures
        -(s.len() * 0x8000_0000_0000_0000) <= fatality_sum(s) <= s.len() * 0x8000_0000_0000_0000,
    decreases s.len(),
{
    if s.len() > 0 {
        lemma_fatality_sum_bounds(s.drop_last());
    }
}

/// True when `a` comes at or before `b` in the order of character codes
/// (the order of `str`'s comparison).
pub open spec fn lex_le(a: Seq<char>, b: Seq<char>) -> bool
    decreases a.len(),
{
    if a.len() == 0 {
        true
    } else if b.len() == 0 {
        false
    } else if (a[0] as u32) != (b[0] as u32) {
        (a[0] as u32) < (b[0] as u32)
    } else {
        lex_le(a.drop_first(), b.drop_first())
    }
}

/// Compare two strings in the order of character codes.
pub fn str_lex_le(a: &str, b: &str) -> (r: bool)
    ensures
        r == lex_le(a@, b@),
{
    let n = a.unicode_len();
    let m = b.unicode_len();
    let mut i: usize = 0;
    assert(a@.subrange(0, n as int) =~= a@);
    assert(b@.subrange(0, m as int) =~= b@);
    while i < n && i < m
        invariant
            n == a@.len(),
            m == b@.len(),
            i <= n,
            i <= m,
            lex_le(a@, b@) == lex_le(a@.subrange(i as int, n as int), b@.subrange(i as int, m as int)),
        decreases n - i,
    {
        let c = a.get_char(i);
        let d = b.get_char(i);
        let ghost sa = a@.subrange(i as int, n as int);
        let ghost sb = b@.subrange(i as int, m as int);
        assert(sa[0] == c && sb[0] == d);
        if (c as u32) != (d as u32) {
            return (c as u32) < (d as u32);
        }
        assert(sa.drop_first() =~= a@.subrange(i + 1, n as int));
        assert(sb.drop_first() =~= b@.subrange(i + 1, m as int));
        i = i + 1;
    }
    n <= m
}

/// The events of `s` that caused at least one death, in order.
pub open spec fn lethal_events(s: Seq<AcledEvent>) -> Seq<AcledEvent>
    decreases s.len(),
{
    if s.len() == 0 {
        Seq::empty()
    } else if s.last().fatalities matches Some(f) && f > 0 {
        lethal_events(s.drop_last()).push(s.last())
    } else {
        lethal_events(s.drop_last())
    }
}

/// Number of events of `s` whose type is `t`.
pub open spec fn type_count(s: Seq<AcledEvent>, t: Seq<char>) -> nat
    decreases s.len(),
{
    if s.len() == 0 {
        0
    } else {
        type_count(s.drop_last(), t) + if s.last().event_type@ == t {
            1nat
        } else {
            0nat
        }
    }
}

proof fn lemma_type_count_len(s: Seq<AcledEvent>, t: Seq<char>)
    ensures
        type_count(s, t) <= s.len(),
    decreases s.len(),
{
    if s.len() > 0 {
        lemma_type_count_len(s.drop_last(), t);
    }
}

/// True when `v` lists each event type of `s` once with its exact number of events.
pub open spec fn counts_types(s: Seq<AcledEvent>, v: Seq<LabelCount>) -> bool {
    &&& forall|k: int| 0 <= k < v.len() ==> #[trigger] v[k].count == type_count(s, v[k].label@) && v[k].count > 0
    &&& forall|k: int, l: int| 0 <= k < l < v.len() ==> v[k].label@ != v[l].label@
    &&& forall|j: int| 0 <= j < s.len() ==> exists|k: int| 0 <= k < v.len() && v[k].label@ == #[trigger] s[j].event_type@
}

proof fn lemma_type_count_positive(s: Seq<AcledEvent>, t: Seq<char>)
    requires
        type_count(s, t) > 0,
    ensures
        exists|j: int| 0 <= j < s.len() && s[j].event_type@ == t,
    decreases s.len(),
{
    if s.last().event_type@ == t {
        assert(s[s.len() - 1].event_type@ == t);
    } else {
        lemma_type_count_positive(s.drop_last(), t);
        let j = choose|j: int| 0 <= j < s.drop_last().len() && s.drop_last()[j].event_type@ == t;
        assert(s[j] == s.drop_last()[j]);
    }
}

proof fn lemma_lex_le_reflexive(a: Seq<char>)
    ensures
        lex_le(a, a),
    decreases a.len(),
{
    if a.len() > 0 {
        lemma_lex_le_reflexive(a.drop_first());
    }
}

proof fn lemma_lex_le_total(a: Seq<char>, b: Seq<char>)
    ensures
        lex_le(a, b) || lex_le(b, a),
    decreases a.len(),
{
    if a.len() > 0 && b.len() > 0 && (a[0] as u32) == (b[0] as u32) {
        lemma_lex_le_total(a.drop_first(), b.drop_first());
    }
}

proof fn lemma_lex_le_transitive(a: Seq<char>, b: Seq<char>, c: Seq<char>)
    requires
        lex_le(a, b),
        lex_le(b, c),
    ensures
        lex_le(a, c),
    decreases a.len(),
{
    if a.len() > 0 && b.len() > 0 && c.len() > 0 && (a[0] as u32) == (b[0] as u32) && (b[0] as u32) == (c[0] as u32) {
        lemma_lex_le_transitive(a.drop_first(), b.drop_first(), c.drop_first());
    }
}

impl AcledResponse {
    /// The sum of the recorded fatalities of all events.
    pub fn total_fatalities(&self) -> (r: i128)
        ensures
            r == fatality_sum(self.data@),
    {
        let mut total: i128 = 0;
        let mut i: usize = 0;
        while i < self.data.len()
            invariant
                i <= self.data.len(),
                total == fatality_sum(self.data@.take(i as int)),
            decreases self.data.len() - i,
        {
            proof {
                assert(self.data@.take(i + 1).drop_last() =~= self.data@.take(i as int));
                lemma_fatality_sum_bounds(self.data@.take(i + 1));
                assert((i + 1) * 0x8000_0000_0000_0000 <= 0xffff_ffff_ffff_ffff * 0x8000_0000_0000_0000) by (nonlinear_arith)
                    requires
                        i + 1 <= 0xffff_ffff_ffff_ffff,
                ;
            }
            match self.data[i].fatalities {
                Some(f) => {
                    total = total + f as i128;
                },
                None => {},
            }
            i = i + 1;
        }
        assert(self.data@.take(i as int) =~= self.data@);
        total
    }

    /// The events that caused at least one death, in order.
    pub fn with_fatalities(&self) -> (r: Vec<&AcledEvent>)
        ensures
            r@.map_values(|e: &AcledEvent| *e) == lethal_events(self.data@),
    {
        let mut r: Vec<&AcledEvent> = Vec::new();
        let mut i: usize = 0;
        assert(r@.map_values(|e: &AcledEvent| *e) =~= lethal_events(self.data@.take(0)));
        while i < self.data.len()
            invariant
                i <= self.data.len(),
                r@.map_values(|e: &AcledEvent| *e) == lethal_events(self.data@.take(i as int)),
            decreases self.data.len() - i,
        {
            let ghost before = r@;
            assert(self.data@.take(i + 1).drop_last() =~= self.data@.take(i as int));
            assert(self.data@.take(i + 1).last() == self.data@[i as int]);
            let e = &self.data[i];
            if e.is_lethal() {
                r.push(e);
                assert(r@.map_values(|e: &AcledEvent| *e) =~= before.map_values(|e: &AcledEvent| *e).push(*e));
            }
            i = i + 1;
        }
        assert(self.data@.take(i as int) =~= self.data@);
        r
    }

    /// Each event type with its number of events, in order of first appearance.
    pub fn events_by_type(&self) -> (r: Vec<LabelCount>)
        ensures
            counts_types(self.data@, r@),
    {
        let ghost data = self.data@;
        let mut counts: Vec<LabelCount> = Vec::new();
        let mut i: usize = 0;
        while i < self.data.len()
            invariant
                data == self.data@,
                i <= self.data.len(),
                counts_types(data.take(i as int), counts@),
            decreases self.data.len() - i,
        {
            let ghost prev = data.take(i as int);
            let ghost next = data.take(i + 1);
            let ghost old_counts = counts@;
            let t = &self.data[i].event_type;
            proof {
                assert(next.drop_last() =~= prev);
                assert(next.last() == data[i as int]);
                lemma_type_count_len(prev, t@);
            }
            let mut k: usize = 0;
            let mut found = false;
            while k < counts.len()
                invariant_except_break
                    !found,
                invariant
                    k <= counts.len(),
                    counts@ == old_counts,
                    forall|x: int| 0 <= x < k ==> #[trigger] counts@[x].label@ != t@,
                ensures
                    found ==> k < counts.len() && counts@[k as int].label@ == t@,
                    !found ==> k == counts.len(),
                decreases counts.len() - k,
            {
                if str_eq(counts[k].label.as_str(), t.as_str()) {
                    found = true;
                    break;
                }
                k = k + 1;
            }
            if found {
                let c = counts[k].count;
                assert(c == type_count(prev, t@));
                counts.set(k, LabelCount { label: t.clone(), count: c + 1 });
            } else {
                counts.push(LabelCount { label: t.clone(), count: 1 });
            }
            proof {
                assert forall|x: int| 0 <= x < counts.len() implies #[trigger] counts@[x].count
                    == type_count(next, counts@[x].label@) && counts@[x].count > 0 by {
                    if x < old_counts.len() && (!found || x != k) {
                        assert(counts@[x] == old_counts[x]);
                        assert(old_counts[x].count == type_count(prev, old_counts[x].label@));
                    }
                    if !found && x == old_counts.len() {
                        if type_count(prev, t@) > 0 {
                            lemma_type_count_positive(prev, t@);
                            let j = choose|j: int| 0 <= j < prev.len() && prev[j].event_type@ == t@;
                            assert(exists|y: int| 0 <= y < old_counts.len() && old_counts[y].label@ == #[trigger] prev[j].event_type@);
                            let y = choose|y: int| 0 <= y < old_counts.len() && old_counts[y].label@ == #[trigger] prev[j].event_type@;
                            assert(old_counts[y].label@ != t@);
                        }
                    }
                }
                assert forall|x: int, y: int| 0 <= x < y < counts.len() implies counts@[x].label@ != counts@[y].label@ by {
                    if y < old_counts.len() {
                        assert(old_counts[x].label@ != old_counts[y].label@);
                    } else {
                        assert(counts@[x] == old_counts[x]);
                        assert(old_counts[x].label@ != t@);
                    }
                }
                assert forall|j: int| 0 <= j < next.len() implies exists|x: int| 0 <= x < counts.len() && counts@[x].label@ == #[trigger] next[j].event_type@ by {
                    if j < i {
                        assert(next[j] == prev[j]);
                        let x = choose|x: int| 0 <= x < old_counts.len() && old_counts[x].label@ == #[trigger] prev[j].event_type@;
                        assert(counts@[x].label@ == old_counts[x].label@);
                    } else if found {
                        assert(counts@[k as int].label@ == next[j].event_type@);
                    } else {
                        assert(counts@[old_counts.len() as int].label@ == next[j].event_type@);
                    }
                }
            }
            i = i + 1;
        }
        assert(data.take(i as int) =~= data);
        counts
    }

    /// The event with the greatest date (the last of them on a tie).
    pub fn most_recent(&self) -> (r: Option<&AcledEvent>)
        ensures
            self.data@.len() == 0 <==> r is None,
            r matches Some(e) ==> exists|k: int|
                0 <= k < self.data@.len() && *e == self.data@[k] && (forall|j: int|
                    0 <= j < self.data@.len() ==> lex_le(#[trigger] self.data@[j].event_date@, self.data@[k].event_date@))
                    && (forall|j: int| k < j < self.data@.len() ==> !lex_le(self.data@[k].event_date@, #[trigger] self.data@[j].event_date@)),
    {
        if self.data.len() == 0 {
            return None;
        }
        let mut best: usize = 0;
        let mut i: usize = 1;
        proof {
            lemma_lex_le_reflexive(self.data@[0].event_date@);
        }
        while i < self.data.len()
            invariant
                0 <= best < i <= self.data.len(),
                forall|j: int| 0 <= j < i ==> lex_le(#[trigger] self.data@[j].event_date@, self.data@[best as int].event_date@),
                forall|j: int| best < j < i ==> !lex_le(self.data@[best as int].event_date@, #[trigger] self.data@[j].event_date@),
            decreases self.data.len() - i,
        {
            if str_lex_le(self.data[best].event_date.as_str(), self.data[i].event_date.as_str()) {
                proof {
                    assert forall|j: int| 0 <= j < i + 1 implies lex_le(#[trigger] self.data@[j].event_date@, self.data@[i as int].event_date@) by {
                        if j < i {
                            lemma_lex_le_transitive(self.data@[j].event_date@, self.data@[best as int].event_date@, self.data@[i as int].event_date@);
                        } else {
                            lemma_lex_le_reflexive(self.data@[i as int].event_date@);
                        }
                    }
                }
                best = i;
            } else {
                proof {
                    lemma_lex_le_total(self.data@[best as int].event_date@, self.data@[i as int].event_date@);
                }
            }
            i = i + 1;
        }
        Some(&self.data[best])
    }
}

/// Kinds of conflict events.
#[derive(Clone, Copy, Debug, PartialEq, Eq, Structural)]
pub enum AcledEventType {
    Battles,
    ExplosionsRemoteViolence,
    ViolenceAgainstCivilians,
    Protests,
    Riots,
    StrategicDevelopments,
}

pub open spec fn event_type_text(t: AcledEventType) -> Seq<char> {
    match t {
        AcledEventType::Battles => "Battles"@,
        AcledEventType::ExplosionsRemoteViolence => "Explosions/Remote violence"@,
        AcledEventType::ViolenceAgainstCivilians => "Violence against civilians"@,
        AcledEventType::Protests => "Protests"@,
        AcledEventType::Riots => "Riots"@,
        AcledEventType::StrategicDevelopments => "Strategic developments"@,
    }
}

impl AcledEventType {
    /// The provider's name for the kind.
    pub fn as_str(&self) -> (r: &'static str)
        ensures
            r@ == event_type_text(*self),
    {
        match self {
            AcledEventType::Battles => "Battles",
            AcledEventType::ExplosionsRemoteViolence => "Explosions/Remote violence",
            AcledEventType::ViolenceAgainstCivilians => "Violence against civilians",
            AcledEventType::Protests => "Protests",
            AcledEventType::Riots => "Riots",
            AcledEventType::StrategicDevelopments => "Strategic developments",
        }
    }
}

/// World regions, numbered as the provider numbers them.
#[derive(Clone, Copy, Debug, PartialEq, Eq, Structural)]
pub enum AcledRegion {
    WesternAfrica,
    MiddleAfrica,
    EasternAfrica,
    SouthernAfrica,
    NorthernAfrica,
    SouthAsia,
    SoutheastAsia,
    MiddleEast,
    Europe,
    CaucasusCentralAsia,
    CentralAmerica,
    SouthAmerica,
    Caribbean,
    EastAsia,
    NorthAmerica,
    Oceania,
}

pub open spec fn region_number(r: AcledRegion) -> u32 {
    match r {
        AcledRegion::WesternAfrica => 1,
        AcledRegion::MiddleAfrica => 2,
        AcledRegion::EasternAfrica => 3,
        AcledRegion::SouthernAfrica => 4,
        AcledRegion::NorthernAfrica => 5,
        AcledRegion::SouthAsia => 6,
        AcledRegion::SoutheastAsia => 7,
        AcledRegion::MiddleEast => 8,
        AcledRegion::Europe => 9,
        AcledRegion::CaucasusCentralAsia => 10,
        AcledRegion::CentralAmerica => 11,
        AcledRegion::SouthAmerica => 12,
        AcledRegion::Caribbean => 13,
        AcledRegion::EastAsia => 14,
        AcledRegion::NorthAmerica => 15,
        AcledRegion::Oceania => 16,
    }
}

impl AcledRegion {
    /// The provider's number for the region.
    pub fn number(&self) -> (r: u32)
        ensures
            r == region_number(*self),
    {
        match self {
            AcledRegion::WesternAfrica => 1,
            AcledRegion::MiddleAfrica => 2,
            AcledRegion::EasternAfrica => 3,
            AcledRegion::SouthernAfrica => 4,
            AcledRegion::NorthernAfrica => 5,
            AcledRegion::SouthAsia => 6,
            AcledRegion::SoutheastAsia => 7,
            AcledRegion::MiddleEast => 8,
            AcledRegion::Europe => 9,
            AcledRegion::CaucasusCentralAsia => 10,
            AcledRegion::CentralAmerica => 11,
            AcledRegion::SouthAmerica => 12,
            AcledRegion::Caribbean => 13,
            AcledRegion::EastAsia => 14,
            AcledRegion::NorthAmerica => 15,
            AcledRegion::Oceania => 16,
        }
    }
}

} // verus!
