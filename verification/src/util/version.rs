//! Protocol versions of the game clients that the server knows.
use vstd::prelude::*;

verus! {

/// A protocol version and the name of the latest stable release that
/// speaks it.
pub struct Version {
    protocol: u16,
    name: String,
}

/// Name of the latest stable release that speaks protocol `protocol`, for
/// the protocols that the server knows.
pub open spec fn release_name(protocol: u16) -> Option<Seq<char>> {
    match protocol {
        47 => Some("1.8.9"@),
        107 => Some("1.9"@),
        108 => Some("1.9.1"@),
        109 => Some("1.9.2"@),
        110 => Some("1.9.4"@),
        210 => Some("1.10.2"@),
        315 => Some("1.11"@),
        316 => Some("1.11.2"@),
        335 => Some("1.12"@),
        338 => Some("1.12.1"@),
        340 => Some("1.12.2"@),
        393 => Some("1.13"@),
        401 => Some("1.13.1"@),
        404 => Some("1.13.2"@),
        477 => Some("1.14"@),
        480 => Some("1.14.1"@),
        485 => Some("1.14.2"@),
        490 => Some("1.14.3"@),
        498 => Some("1.14.4"@),
        573 => Some("1.15"@),
        575 => Some("1.15.1"@),
        578 => Some("1.15.2"@),
        735 => Some("1.16"@),
        736 => Some("1.16.1"@),
        751 => Some("1.16.2"@),
        753 => Some("1.16.3"@),
        754 => Some("1.16.5"@),
        755 => Some("1.17"@),
        756 => Some("1.17.1"@),
        757 => Some("1.18.1"@),
        758 => Some("1.18.2"@),
        759 => Some("1.19"@),
        _ => None,
    }
}

/// The protocol numbers that the server knows, numbered from 0 in
/// increasing order.
pub open spec fn known_protocol(i: int) -> u16 {
    if i == 0 {
        47
    } else
    if i == 1 {
        107
    } else
    if i == 2 {
        108
    } else
    if i == 3 {
        109
    } else
    if i == 4 {
        110
    } else
    if i == 5 {
        210
    } else
    if i == 6 {
        315
    } else
    if i == 7 {
        316
    } else
    if i == 8 {
        335
    } else
    if i == 9 {
        338
    } else
    if i == 10 {
        340
    } else
    if i == 11 {
        393
    } else
    if i == 12 {
        401
    } else
    if i == 13 {
        404
    } else
    if i == 14 {
        477
    } else
    if i == 15 {
        480
    } else
    if i == 16 {
        485
    } else
    if i == 17 {
        490
    } else
    if i == 18 {
        498
    } else
    if i == 19 {
        573
    } else
    if i == 20 {
        575
    } else
    if i == 21 {
        578
    } else
    if i == 22 {
        735
    } else
    if i == 23 {
        736
    } else
    if i == 24 {
        751
    } else
    if i == 25 {
        753
    } else
    if i == 26 {
        754
    } else
    if i == 27 {
        755
    } else
    if i == 28 {
        756
    } else
    if i == 29 {
        757
    } else
    if i == 30 {
        758
    } else {
        759
    }
}

/// How many protocols the server knows.
pub open spec fn known_count() -> int {
    32
}

/// The value of a decimal digit.
pub open spec fn digit_value(c: char) -> nat {
    (c as int - '0' as int) as nat
}

/// The numbers of a release name that dots separate, in order: "1.10.2"
/// has 1, 10 and 2.
pub open spec fn version_parts(name: Seq<char>) -> Seq<nat>
    decreases name.len(),
{
    if name.len() == 0 {
        seq![0nat]
    } else if name.last() == '.' {
        version_parts(name.drop_last()).push(0)
    } else {
        let p = version_parts(name.drop_last());
        p.update(p.len() - 1, p.last() * 10 + digit_value(name.last()))
    }
}

/// Whether `x` comes before `y`, number by number, where a sequence comes
/// before those that extend it.
pub open spec fn parts_before(x: Seq<nat>, y: Seq<nat>) -> bool
    decreases x.len(),
{
    if x.len() == 0 {
        y.len() > 0
    } else if y.len() == 0 {
        false
    } else if x[0] != y[0] {
        x[0] < y[0]
    } else {
        parts_before(x.drop_first(), y.drop_first())
    }
}

/// Whether release `a` comes before release `b` in version order.
pub open spec fn version_before(a: Seq<char>, b: Seq<char>) -> bool {
    parts_before(version_parts(a), version_parts(b))
}

/// The numbers of the release name of the `i`-th known protocol.
spec fn known_parts(i: int) -> Seq<nat> {
    if i == 0 {
        seq![1nat, 8, 9]
    } else
    if i == 1 {
        seq![1nat, 9]
    } else
    if i == 2 {
        seq![1nat, 9, 1]
    } else
    if i == 3 {
        seq![1nat, 9, 2]
    } else
    if i == 4 {
        seq![1nat, 9, 4]
    } else
    if i == 5 {
        seq![1nat, 10, 2]
    } else
    if i == 6 {
        seq![1nat, 11]
    } else
    if i == 7 {
        seq![1nat, 11, 2]
    } else
    if i == 8 {
        seq![1nat, 12]
    } else
    if i == 9 {
        seq![1nat, 12, 1]
    } else
    if i == 10 {
        seq![1nat, 12, 2]
    } else
    if i == 11 {
        seq![1nat, 13]
    } else
    if i == 12 {
        seq![1nat, 13, 1]
    } else
    if i == 13 {
        seq![1nat, 13, 2]
    } else
    if i == 14 {
        seq![1nat, 14]
    } else
    if i == 15 {
        seq![1nat, 14, 1]
    } else
    if i == 16 {
        seq![1nat, 14, 2]
    } else
    if i == 17 {
        seq![1nat, 14, 3]
    } else
    if i == 18 {
        seq![1nat, 14, 4]
    } else
    if i == 19 {
        seq![1nat, 15]
    } else
    if i == 20 {
        seq![1nat, 15, 1]
    } else
    if i == 21 {
        seq![1nat, 15, 2]
    } else
    if i == 22 {
        seq![1nat, 16]
    } else
    if i == 23 {
        seq![1nat, 16, 1]
    } else
    if i == 24 {
        seq![1nat, 16, 2]
    } else
    if i == 25 {
        seq![1nat, 16, 3]
    } else
    if i == 26 {
        seq![1nat, 16, 5]
    } else
    if i == 27 {
        seq![1nat, 17]
    } else
    if i == 28 {
        seq![1nat, 17, 1]
    } else
    if i == 29 {
        seq![1nat, 18, 1]
    } else
    if i == 30 {
        seq![1nat, 18, 2]
    } else {
        seq![1nat, 19]
    }
}

/// Where protocol `p` stands among those the server knows.
proof fn known_index(p: u16) -> (i: int)
    requires
        release_name(p) is Some,
    ensures
        0 <= i < known_count(),
        known_protocol(i) == p,
{
    if p == 47 {
        0
    } else
    if p == 107 {
        1
    } else
    if p == 108 {
        2
    } else
    if p == 109 {
        3
    } else
    if p == 110 {
        4
    } else
    if p == 210 {
        5
    } else
    if p == 315 {
        6
    } else
    if p == 316 {
        7
    } else
    if p == 335 {
        8
    } else
    if p == 338 {
        9
    } else
    if p == 340 {
        10
    } else
    if p == 393 {
        11
    } else
    if p == 401 {
        12
    } else
    if p == 404 {
        13
    } else
    if p == 477 {
        14
    } else
    if p == 480 {
        15
    } else
    if p == 485 {
        16
    } else
    if p == 490 {
        17
    } else
    if p == 498 {
        18
    } else
    if p == 573 {
        19
    } else
    if p == 575 {
        20
    } else
    if p == 578 {
        21
    } else
    if p == 735 {
        22
    } else
    if p == 736 {
        23
    } else
    if p == 751 {
        24
    } else
    if p == 753 {
        25
    } else
    if p == 754 {
        26
    } else
    if p == 755 {
        27
    } else
    if p == 756 {
        28
    } else
    if p == 757 {
        29
    } else
    if p == 758 {
        30
    } else {
        31
    }
}

/// The release name of each known protocol reads as its numbers.
proof fn lemma_known_parts(i: int)
    requires
        0 <= i < known_count(),
    ensures
        release_name(known_protocol(i)) is Some,
        version_parts(release_name(known_protocol(i))->0) == known_parts(i),
{
    if i < 4 {
        lemma_known_parts_a(i);
    } else if i < 8 {
        lemma_known_parts_b(i);
    } else if i < 12 {
        lemma_known_parts_c(i);
    } else if i < 16 {
        lemma_known_parts_d(i);
    } else if i < 20 {
        lemma_known_parts_e(i);
    } else if i < 24 {
        lemma_known_parts_f(i);
    } else if i < 28 {
        lemma_known_parts_g(i);
    } else {
        lemma_known_parts_h(i);
    }
}

/// [`lemma_known_parts`] for protocols 0 to 3.
#[verifier::spinoff_prover]
#[verifier::rlimit(40)]
proof fn lemma_known_parts_a(i: int)
    requires
        0 <= i < 4,
    ensures
        release_name(known_protocol(i)) is Some,
        version_parts(release_name(known_protocol(i))->0) == known_parts(i),
{
    reveal_with_fuel(version_parts, 7);
    if i == 0 {
        reveal_strlit("1.8.9");
        assert(version_parts("1.8.9"@) =~= seq![1nat, 8, 9]);
    } else if i == 1 {
        reveal_strlit("1.9");
        assert(version_parts("1.9"@) =~= seq![1nat, 9]);
    } else if i == 2 {
        reveal_strlit("1.9.1");
        assert(version_parts("1.9.1"@) =~= seq![1nat, 9, 1]);
    } else {
        reveal_strlit("1.9.2");
        assert(version_parts("1.9.2"@) =~= seq![1nat, 9, 2]);
    }
}

/// [`lemma_known_parts`] for protocols 4 to 7.
#[verifier::spinoff_prover]
#[verifier::rlimit(40)]
proof fn lemma_known_parts_b(i: int)
    requires
        4 <= i < 8,
    ensures
        release_name(known_protocol(i)) is Some,
        version_parts(release_name(known_protocol(i))->0) == known_parts(i),
{
    reveal_with_fuel(version_parts, 7);
    if i == 4 {
        reveal_strlit("1.9.4");
        assert(version_parts("1.9.4"@) =~= seq![1nat, 9, 4]);
    } else if i == 5 {
        reveal_strlit("1.10.2");
        assert(version_parts("1.10.2"@) =~= seq![1nat, 10, 2]);
    } else if i == 6 {
        reveal_strlit("1.11");
        assert(version_parts("1.11"@) =~= seq![1nat, 11]);
    } else {
        reveal_strlit("1.11.2");
        assert(version_parts("1.11.2"@) =~= seq![1nat, 11, 2]);
    }
}

/// [`lemma_known_parts`] for protocols 8 to 11.
#[verifier::spinoff_prover]
#[verifier::rlimit(40)]
proof fn lemma_known_parts_c(i: int)
    requires
        8 <= i < 12,
    ensures
        release_name(known_protocol(i)) is Some,
        version_parts(release_name(known_protocol(i))->0) == known_parts(i),
{
    reveal_with_fuel(version_parts, 7);
    if i == 8 {
        reveal_strlit("1.12");
        assert(version_parts("1.12"@) =~= seq![1nat, 12]);
    } else if i == 9 {
        reveal_strlit("1.12.1");
        assert(version_parts("1.12.1"@) =~= seq![1nat, 12, 1]);
    } else if i == 10 {
        reveal_strlit("1.12.2");
        assert(version_parts("1.12.2"@) =~= seq![1nat, 12, 2]);
    } else {
        reveal_strlit("1.13");
        assert(version_parts("1.13"@) =~= seq![1nat, 13]);
    }
}

/// [`lemma_known_parts`] for protocols 12 to 15.
#[verifier::spinoff_prover]
#[verifier::rlimit(40)]
proof fn lemma_known_parts_d(i: int)
    requires
        12 <= i < 16,
    ensures
        release_name(known_protocol(i)) is Some,
        version_parts(release_name(known_protocol(i))->0) == known_parts(i),
{
    reveal_with_fuel(version_parts, 7);
    if i == 12 {
        reveal_strlit("1.13.1");
        assert(version_parts("1.13.1"@) =~= seq![1nat, 13, 1]);
    } else if i == 13 {
        reveal_strlit("1.13.2");
        assert(version_parts("1.13.2"@) =~= seq![1nat, 13, 2]);
    } else if i == 14 {
        reveal_strlit("1.14");
        assert(version_parts("1.14"@) =~= seq![1nat, 14]);
    } else {
        reveal_strlit("1.14.1");
        assert(version_parts("1.14.1"@) =~= seq![1nat, 14, 1]);
    }
}

/// [`lemma_known_parts`] for protocols 16 to 19.
#[verifier::spinoff_prover]
#[verifier::rlimit(40)]
proof fn lemma_known_parts_e(i: int)
    requires
        16 <= i < 20,
    ensures
        release_name(known_protocol(i)) is Some,
        version_parts(release_name(known_protocol(i))->0) == known_parts(i),
{
    reveal_with_fuel(version_parts, 7);
    if i == 16 {
        reveal_strlit("1.14.2");
        assert(version_parts("1.14.2"@) =~= seq![1nat, 14, 2]);
    } else if i == 17 {
        reveal_strlit("1.14.3");
        assert(version_parts("1.14.3"@) =~= seq![1nat, 14, 3]);
    } else if i == 18 {
        reveal_strlit("1.14.4");
        assert(version_parts("1.14.4"@) =~= seq![1nat, 14, 4]);
    } else {
        reveal_strlit("1.15");
        assert(version_parts("1.15"@) =~= seq![1nat, 15]);
    }
}

/// [`lemma_known_parts`] for protocols 20 to 23.
#[verifier::spinoff_prover]
#[verifier::rlimit(40)]
proof fn lemma_known_parts_f(i: int)
    requires
        20 <= i < 24,
    ensures
        release_name(known_protocol(i)) is Some,
        version_parts(release_name(known_protocol(i))->0) == known_parts(i),
{
    reveal_with_fuel(version_parts, 7);
    if i == 20 {
        reveal_strlit("1.15.1");
        assert(version_parts("1.15.1"@) =~= seq![1nat, 15, 1]);
    } else if i == 21 {
        reveal_strlit("1.15.2");
        assert(version_parts("1.15.2"@) =~= seq![1nat, 15, 2]);
    } else if i == 22 {
        reveal_strlit("1.16");
        assert(version_parts("1.16"@) =~= seq![1nat, 16]);
    } else {
        reveal_strlit("1.16.1");
        assert(version_parts("1.16.1"@) =~= seq![1nat, 16, 1]);
    }
}

/// [`lemma_known_parts`] for protocols 24 to 27.
#[verifier::spinoff_prover]
#[verifier::rlimit(40)]
proof fn lemma_known_parts_g(i: int)
    requires
        24 <= i < 28,
    ensures
        release_name(known_protocol(i)) is Some,
        version_parts(release_name(known_protocol(i))->0) == known_parts(i),
{
    reveal_with_fuel(version_parts, 7);
    if i == 24 {
        reveal_strlit("1.16.2");
        assert(version_parts("1.16.2"@) =~= seq![1nat, 16, 2]);
    } else if i == 25 {
        reveal_strlit("1.16.3");
        assert(version_parts("1.16.3"@) =~= seq![1nat, 16, 3]);
    } else if i == 26 {
        reveal_strlit("1.16.5");
        assert(version_parts("1.16.5"@) =~= seq![1nat, 16, 5]);
    } else {
        reveal_strlit("1.17");
        assert(version_parts("1.17"@) =~= seq![1nat, 17]);
    }
}

/// [`lemma_known_parts`] for protocols 28 to 31.
#[verifier::spinoff_prover]
#[verifier::rlimit(40)]
proof fn lemma_known_parts_h(i: int)
    requires
        28 <= i < 32,
    ensures
        release_name(known_protocol(i)) is Some,
        version_parts(release_name(known_protocol(i))->0) == known_parts(i),
{
    reveal_with_fuel(version_parts, 7);
    if i == 28 {
        reveal_strlit("1.17.1");
        assert(version_parts("1.17.1"@) =~= seq![1nat, 17, 1]);
    } else if i == 29 {
        reveal_strlit("1.18.1");
        assert(version_parts("1.18.1"@) =~= seq![1nat, 18, 1]);
    } else if i == 30 {
        reveal_strlit("1.18.2");
        assert(version_parts("1.18.2"@) =~= seq![1nat, 18, 2]);
    } else {
        reveal_strlit("1.19");
        assert(version_parts("1.19"@) =~= seq![1nat, 19]);
    }
}

/// The known protocols increase.
proof fn lemma_known_increasing(i: int, j: int)
    requires
        0 <= i < j < known_count(),
    ensures
        known_protocol(i) < known_protocol(j),
    decreases j - i,
{
    if j > i + 1 {
        lemma_known_increasing(i, j - 1);
        lemma_known_increasing(j - 1, j);
    }
}

/// The numbers of the known releases increase.
proof fn lemma_known_parts_increasing(i: int, j: int)
    requires
        0 <= i < j < known_count(),
    ensures
        parts_before(known_parts(i), known_parts(j)),
    decreases j - i,
{
    if j > i + 1 {
        lemma_known_parts_increasing(i, j - 1);
        lemma_known_parts_increasing(j - 1, j);
        lemma_parts_before_transitive(known_parts(i), known_parts(j - 1), known_parts(j));
    } else {
        reveal_with_fuel(parts_before, 4);
    }
}

/// Version order is transitive.
proof fn lemma_parts_before_transitive(x: Seq<nat>, y: Seq<nat>, z: Seq<nat>)
    requires
        parts_before(x, y),
        parts_before(y, z),
    ensures
        parts_before(x, z),
    decreases x.len(),
{
    if x.len() > 0 && y.len() > 0 && z.len() > 0 && x[0] == y[0] && y[0] == z[0] {
        lemma_parts_before_transitive(x.drop_first(), y.drop_first(), z.drop_first());
    }
}

/// Nothing comes before itself.
proof fn lemma_parts_before_irreflexive(x: Seq<nat>)
    ensures
        !parts_before(x, x),
    decreases x.len(),
{
    if x.len() > 0 {
        lemma_parts_before_irreflexive(x.drop_first());
    }
}

/// Law: the server knows protocols 47 (release 1.8.9) to 759 (release
/// 1.19) and no others outside that range; two different protocols have
/// different release names; and the release of the higher protocol comes
/// later in version order (dot-separated numbers compared one by one, a
/// name before those that extend it).
pub proof fn lemma_release_order(p1: u16, p2: u16)
    requires
        release_name(p1) is Some,
        release_name(p2) is Some,
    ensures
        47 <= p1 <= 759,
        p1 < p2 ==> version_before(release_name(p1)->0, release_name(p2)->0),
        p1 != p2 ==> release_name(p1)->0 != release_name(p2)->0,
{
    let i1 = known_index(p1);
    let i2 = known_index(p2);
    lemma_known_parts(i1);
    lemma_known_parts(i2);
    if i1 > 0 {
        lemma_known_increasing(0, i1);
    }
    if i1 < known_count() - 1 {
        lemma_known_increasing(i1, known_count() - 1);
    }
    if p1 != p2 {
        let (lo, hi) = if p1 < p2 { (i1, i2) } else { (i2, i1) };
        if hi < lo {
            lemma_known_increasing(hi, lo);
        }
        if lo == hi {
            assert(false);
        }
        lemma_known_parts_increasing(lo, hi);
        if known_parts(lo) == known_parts(hi) {
            lemma_parts_before_irreflexive(known_parts(lo));
        }
    }
}

impl Clone for Version {
    fn clone(&self) -> (v: Self)
        ensures
            v.protocol_view() == self.protocol_view(),
            v.name_view() == self.name_view(),
    {
        Version { protocol: self.protocol, name: self.name.clone() }
    }
}

impl Version {
    /// The protocol number.
    pub closed spec fn protocol_view(&self) -> u16 {
        self.protocol
    }

    /// The release name.
    pub closed spec fn name_view(&self) -> Seq<char> {
        self.name@
    }

    pub fn protocol(self) -> (p: u16)
        ensures
            p == self.protocol_view(),
    {
        self.protocol
    }

    pub fn name(self) -> (n: String)
        ensures
            n@ == self.name_view(),
    {
        self.name
    }
}

/// The version that speaks `protocol`, named after the latest stable
/// release that does; `None` for a protocol that the server does not know.
pub fn from_protocol(protocol: u16) -> (res: Option<Version>)
    ensures
        res is Some <==> release_name(protocol) is Some,
        res matches Some(v) ==> v.protocol_view() == protocol && Some(v.name_view())
            == release_name(protocol),
{
    let name = String::from_str(match protocol {
        47 => "1.8.9",
        107 => "1.9",
        108 => "1.9.1",
        109 => "1.9.2",
        110 => "1.9.4",
        210 => "1.10.2",
        315 => "1.11",
        316 => "1.11.2",
        335 => "1.12",
        338 => "1.12.1",
        340 => "1.12.2",
        393 => "1.13",
        401 => "1.13.1",
        404 => "1.13.2",
        477 => "1.14",
        480 => "1.14.1",
        485 => "1.14.2",
        490 => "1.14.3",
        498 => "1.14.4",
        573 => "1.15",
        575 => "1.15.1",
        578 => "1.15.2",
        735 => "1.16",
        736 => "1.16.1",
        751 => "1.16.2",
        753 => "1.16.3",
        754 => "1.16.5",
        755 => "1.17",
        756 => "1.17.1",
        757 => "1.18.1",
        758 => "1.18.2",
        759 => "1.19",
        _ => {
            return None;
        },
    });
    Some(Version { protocol, name })
}

} // verus!
