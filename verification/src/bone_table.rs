//! What the VRM bone table promises as a whole: a left bone drives the
//! mirror of the joint its right counterpart drives, no two bones drive the
//! same joint, and every joint it drives that is not a finger joint is a
//! joint of the default humanoid.

use vstd::prelude::*;
use crate::skeleton::{humanoid_layout, joint_matches_row, last_named, Skeleton};
use crate::symmetry::{counterpart_of, left_prefix, right_prefix};
use crate::doll::is_finger;
use crate::text::starts_with;
use crate::vrma::{bone_joint, bone_joint_from, VRM_BONE_TABLE};

verus! {

/// A number that tells the table's names apart: their length and the
/// characters at positions 2, 5, 6 and 10 (0 past the end).
pub open spec fn name_code(s: Seq<char>) -> int {
    let at = |k: int| if k < s.len() { s[k] as int } else { 0 };
    s.len() * 0x1000_0000 + at(2) * 0x20_0000 + at(5) * 0x4000 + at(6) * 0x80 + at(10)
}

/// The table row whose VRM bone name has code `code` (-1 for none).
pub open spec fn bone_row(code: int) -> int {
    if code == 1308622848 {
        0
    } else if code == 1562378240 {
        1
    } else if code == 1553989632 {
        2
    } else if code == 2920346624 {
        3
    } else if code == 1281359872 {
        4
    } else if code == 1277165568 {
        5
    } else if code == 1054867456 {
        6
    } else if code == 3436984421 {
        7
    } else if code == 3707074636 {
        8
    } else if code == 3436968933 {
        9
    } else if code == 3706927052 {
        10
    } else if code == 2363225984 {
        11
    } else if code == 2633086848 {
        12
    } else if code == 2363224704 {
        13
    } else if code == 2633316224 {
        14
    } else if code == 3436853221 {
        15
    } else if code == 3707040868 {
        16
    } else if code == 3436984434 {
        17
    } else if code == 3707074625 {
        18
    } else if code == 3436968946 {
        19
    } else if code == 3706927041 {
        20
    } else if code == 2362996480 {
        21
    } else if code == 2633117824 {
        22
    } else if code == 5315902181 {
        23
    } else if code == 4779031282 {
        24
    } else if code == 4242160361 {
        25
    } else if code == 4779127410 {
        26
    } else if code == 5852869230 {
        27
    } else if code == 4242256489 {
        28
    } else if code == 5047480912 {
        29
    } else if code == 6121222729 {
        30
    } else if code == 4510609988 {
        31
    } else if code == 4510611311 {
        32
    } else if code == 5584353140 {
        33
    } else if code == 3973740403 {
        34
    } else if code == 5047482960 {
        35
    } else if code == 6121224777 {
        36
    } else if code == 4510612036 {
        37
    } else if code == 5586105421 {
        38
    } else if code == 5049234512 {
        39
    } else if code == 4512363588 {
        40
    } else if code == 5049055056 {
        41
    } else if code == 6122796873 {
        42
    } else if code == 4512184132 {
        43
    } else if code == 5317555429 {
        44
    } else if code == 6391297253 {
        45
    } else if code == 4780684517 {
        46
    } else if code == 4780766450 {
        47
    } else if code == 5854508270 {
        48
    } else if code == 4243895529 {
        49
    } else if code == 5317539045 {
        50
    } else if code == 6391280869 {
        51
    } else if code == 4780668133 {
        52
    } else {
        -1
    }
}

/// The table row whose joint name has code `code` (-1 for none).
pub open spec fn joint_row(code: int) -> int {
    if code == 1838989312 {
        0
    } else if code == 1562378240 {
        1
    } else if code == 1553989632 {
        2
    } else if code == 3189240308 {
        3
    } else if code == 1281359872 {
        4
    } else if code == 1277165568 {
        5
    } else if code == 1054867456 {
        6
    } else if code == 2363110528 {
        7
    } else if code == 2633495552 {
        8
    } else if code == 2631595776 {
        9
    } else if code == 2901931392 {
        10
    } else if code == 2899867392 {
        11
    } else if code == 3170365669 {
        12
    } else if code == 2363307904 {
        13
    } else if code == 2633497088 {
        14
    } else if code == 3705206371 {
        15
    } else if code == 3975672297 {
        16
    } else if code == 3705468004 {
        17
    } else if code == 3975674348 {
        18
    } else if code == 2899932672 {
        19
    } else if code == 3170366199 {
        20
    } else if code == 2900228352 {
        21
    } else if code == 3170368500 {
        22
    } else if code == 5852968031 {
        23
    } else if code == 5316097119 {
        24
    } else if code == 4779226207 {
        25
    } else if code == 5315917663 {
        26
    } else if code == 6389659487 {
        27
    } else if code == 4779046751 {
        28
    } else if code == 5584418021 {
        29
    } else if code == 6658159845 {
        30
    } else if code == 5047547109 {
        31
    } else if code == 5047629040 {
        32
    } else if code == 6121370857 {
        33
    } else if code == 4510758116 {
        34
    } else if code == 5584401637 {
        35
    } else if code == 6658143461 {
        36
    } else if code == 5047530725 {
        37
    } else if code == 6123158114 {
        38
    } else if code == 5586287202 {
        39
    } else if code == 5049416290 {
        40
    } else if code == 5586285816 {
        41
    } else if code == 6660027640 {
        42
    } else if code == 5049414904 {
        43
    } else if code == 5854721772 {
        44
    } else if code == 6928463596 {
        45
    } else if code == 5317850860 {
        46
    } else if code == 5317851487 {
        47
    } else if code == 6391593311 {
        48
    } else if code == 4780980575 {
        49
    } else if code == 5854721644 {
        50
    } else if code == 6928463468 {
        51
    } else if code == 5317850732 {
        52
    } else {
        -1
    }
}

/// The row of the same bone on the other side of the body (the row itself
/// for a bone on the midline).
pub open spec fn mirror_row(m: int) -> int {
    if 7 <= m <= 22 {
        if (m - 7) % 2 == 0 {
            m + 1
        } else {
            m - 1
        }
    } else if 23 <= m <= 37 {
        m + 15
    } else if 38 <= m <= 52 {
        m - 15
    } else {
        m
    }
}

/// What row `m` of the table gives the laws: its names' codes lead back to
/// it, a sided bone's mirror row holds the mirrored names, and its joint is
/// a finger joint or one of the default humanoid's.
pub open spec fn row_facts(m: int) -> bool {
    let v = VRM_BONE_TABLE[m].0@;
    let p = VRM_BONE_TABLE[m].1@;
    let w = VRM_BONE_TABLE[mirror_row(m)].0@;
    let q = VRM_BONE_TABLE[mirror_row(m)].1@;
    &&& bone_row(name_code(v)) == m
    &&& joint_row(name_code(p)) == m
    &&& starts_with(v, "left"@) ==> "right"@ + v.subrange(4, v.len() as int) == w && counterpart_of(p) == Some(q)
    &&& starts_with(v, "right"@) ==> "left"@ + v.subrange(5, v.len() as int) == w && counterpart_of(p) == Some(q)
    &&& is_finger(p) || exists|r: int| 0 <= r < 35 && #[trigger] humanoid_layout()[r].name == p
}

proof fn lemma_first_char(s: Seq<char>, prefix: Seq<char>)
    requires
        starts_with(s, prefix),
        prefix.len() > 0,
    ensures
        s[0] == prefix[0],
{
    assert(s.subrange(0, prefix.len() as int)[0] == s[0]);
}

/// [`row_facts`] of the midline rows.
proof fn lemma_trunk_rows(m: int)
    requires
        0 <= m <= 6,
    ensures
        row_facts(m),
{
    reveal_strlit("left");
    reveal_strlit("right");
    if m == 0 {
        reveal_strlit("hips");
        reveal_strlit("pelvis");
        let v = VRM_BONE_TABLE[0].0@;
        let p = VRM_BONE_TABLE[0].1@;
        if starts_with(v, "left"@) {
            lemma_first_char(v, "left"@);
        }
        if starts_with(v, "right"@) {
            lemma_first_char(v, "right"@);
        }
        assert(humanoid_layout()[0].name == p);
    } else if m == 1 {
        reveal_strlit("spine");
        reveal_strlit("spine");
        let v = VRM_BONE_TABLE[1].0@;
        let p = VRM_BONE_TABLE[1].1@;
        if starts_with(v, "left"@) {
            lemma_first_char(v, "left"@);
        }
        if starts_with(v, "right"@) {
            lemma_first_char(v, "right"@);
        }
        assert(humanoid_layout()[1].name == p);
    } else if m == 2 {
        reveal_strlit("chest");
        reveal_strlit("chest");
        let v = VRM_BONE_TABLE[2].0@;
        let p = VRM_BONE_TABLE[2].1@;
        if starts_with(v, "left"@) {
            lemma_first_char(v, "left"@);
        }
        if starts_with(v, "right"@) {
            lemma_first_char(v, "right"@);
        }
        assert(humanoid_layout()[2].name == p);
    } else if m == 3 {
        reveal_strlit("upperChest");
        reveal_strlit("upper_chest");
        let v = VRM_BONE_TABLE[3].0@;
        let p = VRM_BONE_TABLE[3].1@;
        if starts_with(v, "left"@) {
            lemma_first_char(v, "left"@);
        }
        if starts_with(v, "right"@) {
            lemma_first_char(v, "right"@);
        }
        assert(humanoid_layout()[3].name == p);
    } else if m == 4 {
        reveal_strlit("neck");
        reveal_strlit("neck");
        let v = VRM_BONE_TABLE[4].0@;
        let p = VRM_BONE_TABLE[4].1@;
        if starts_with(v, "left"@) {
            lemma_first_char(v, "left"@);
        }
        if starts_with(v, "right"@) {
            lemma_first_char(v, "right"@);
        }
        assert(humanoid_layout()[4].name == p);
    } else if m == 5 {
        reveal_strlit("head");
        reveal_strlit("head");
        let v = VRM_BONE_TABLE[5].0@;
        let p = VRM_BONE_TABLE[5].1@;
        if starts_with(v, "left"@) {
            lemma_first_char(v, "left"@);
        }
        if starts_with(v, "right"@) {
            lemma_first_char(v, "right"@);
        }
        assert(humanoid_layout()[5].name == p);
    } else if m == 6 {
        reveal_strlit("jaw");
        reveal_strlit("jaw");
        let v = VRM_BONE_TABLE[6].0@;
        let p = VRM_BONE_TABLE[6].1@;
        if starts_with(v, "left"@) {
            lemma_first_char(v, "left"@);
        }
        if starts_with(v, "right"@) {
            lemma_first_char(v, "right"@);
        }
        assert(humanoid_layout()[6].name == p);
    }
}

/// [`row_facts`] of the arm and leg rows.
proof fn lemma_limb_rows(m: int)
    requires
        7 <= m <= 22,
    ensures
        row_facts(m),
{
    reveal_strlit("left");
    reveal_strlit("right");
    if m == 7 {
        reveal_strlit("leftUpperLeg");
        reveal_strlit("left_hip");
        reveal_strlit("rightUpperLeg");
        reveal_strlit("right_hip");
        let v = VRM_BONE_TABLE[7].0@;
        let p = VRM_BONE_TABLE[7].1@;
        assert(v.subrange(0, 4) =~= "left"@);
        assert("right"@ + v.subrange(4, v.len() as int) =~= VRM_BONE_TABLE[8].0@);
        assert(p.subrange(0, 5) =~= left_prefix());
        assert(right_prefix() + p.subrange(5, p.len() as int) =~= VRM_BONE_TABLE[8].1@);
        if starts_with(v, "right"@) {
            lemma_first_char(v, "right"@);
        }
        assert(humanoid_layout()[22].name == p);
    } else if m == 8 {
        reveal_strlit("rightUpperLeg");
        reveal_strlit("right_hip");
        reveal_strlit("leftUpperLeg");
        reveal_strlit("left_hip");
        let v = VRM_BONE_TABLE[8].0@;
        let p = VRM_BONE_TABLE[8].1@;
        assert(v.subrange(0, 5) =~= "right"@);
        assert("left"@ + v.subrange(5, v.len() as int) =~= VRM_BONE_TABLE[7].0@);
        if starts_with(p, left_prefix()) {
            lemma_first_char(p, left_prefix());
        }
        assert(p.subrange(0, 6) =~= right_prefix());
        assert(left_prefix() + p.subrange(6, p.len() as int) =~= VRM_BONE_TABLE[7].1@);
        if starts_with(v, "left"@) {
            lemma_first_char(v, "left"@);
        }
        assert(humanoid_layout()[31].name == p);
    } else if m == 9 {
        reveal_strlit("leftLowerLeg");
        reveal_strlit("left_knee");
        reveal_strlit("rightLowerLeg");
        reveal_strlit("right_knee");
        let v = VRM_BONE_TABLE[9].0@;
        let p = VRM_BONE_TABLE[9].1@;
        assert(v.subrange(0, 4) =~= "left"@);
        assert("right"@ + v.subrange(4, v.len() as int) =~= VRM_BONE_TABLE[10].0@);
        assert(p.subrange(0, 5) =~= left_prefix());
        assert(right_prefix() + p.subrange(5, p.len() as int) =~= VRM_BONE_TABLE[10].1@);
        if starts_with(v, "right"@) {
            lemma_first_char(v, "right"@);
        }
        assert(humanoid_layout()[23].name == p);
    } else if m == 10 {
        reveal_strlit("rightLowerLeg");
        reveal_strlit("right_knee");
        reveal_strlit("leftLowerLeg");
        reveal_strlit("left_knee");
        let v = VRM_BONE_TABLE[10].0@;
        let p = VRM_BONE_TABLE[10].1@;
        assert(v.subrange(0, 5) =~= "right"@);
        assert("left"@ + v.subrange(5, v.len() as int) =~= VRM_BONE_TABLE[9].0@);
        if starts_with(p, left_prefix()) {
            lemma_first_char(p, left_prefix());
        }
        assert(p.subrange(0, 6) =~= right_prefix());
        assert(left_prefix() + p.subrange(6, p.len() as int) =~= VRM_BONE_TABLE[9].1@);
        if starts_with(v, "left"@) {
            lemma_first_char(v, "left"@);
        }
        assert(humanoid_layout()[32].name == p);
    } else if m == 11 {
        reveal_strlit("leftFoot");
        reveal_strlit("left_ankle");
        reveal_strlit("rightFoot");
        reveal_strlit("right_ankle");
        let v = VRM_BONE_TABLE[11].0@;
        let p = VRM_BONE_TABLE[11].1@;
        assert(v.subrange(0, 4) =~= "left"@);
        assert("right"@ + v.subrange(4, v.len() as int) =~= VRM_BONE_TABLE[12].0@);
        assert(p.subrange(0, 5) =~= left_prefix());
        assert(right_prefix() + p.subrange(5, p.len() as int) =~= VRM_BONE_TABLE[12].1@);
        if starts_with(v, "right"@) {
            lemma_first_char(v, "right"@);
        }
        assert(humanoid_layout()[24].name == p);
    } else if m == 12 {
        reveal_strlit("rightFoot");
        reveal_strlit("right_ankle");
        reveal_strlit("leftFoot");
        reveal_strlit("left_ankle");
        let v = VRM_BONE_TABLE[12].0@;
        let p = VRM_BONE_TABLE[12].1@;
        assert(v.subrange(0, 5) =~= "right"@);
        assert("left"@ + v.subrange(5, v.len() as int) =~= VRM_BONE_TABLE[11].0@);
        if starts_with(p, left_prefix()) {
            lemma_first_char(p, left_prefix());
        }
        assert(p.subrange(0, 6) =~= right_prefix());
        assert(left_prefix() + p.subrange(6, p.len() as int) =~= VRM_BONE_TABLE[11].1@);
        if starts_with(v, "left"@) {
            lemma_first_char(v, "left"@);
        }
        assert(humanoid_layout()[33].name == p);
    } else if m == 13 {
        reveal_strlit("leftToes");
        reveal_strlit("left_toe");
        reveal_strlit("rightToes");
        reveal_strlit("right_toe");
        let v = VRM_BONE_TABLE[13].0@;
        let p = VRM_BONE_TABLE[13].1@;
        assert(v.subrange(0, 4) =~= "left"@);
        assert("right"@ + v.subrange(4, v.len() as int) =~= VRM_BONE_TABLE[14].0@);
        assert(p.subrange(0, 5) =~= left_prefix());
        assert(right_prefix() + p.subrange(5, p.len() as int) =~= VRM_BONE_TABLE[14].1@);
        if starts_with(v, "right"@) {
            lemma_first_char(v, "right"@);
        }
        assert(humanoid_layout()[25].name == p);
    } else if m == 14 {
        reveal_strlit("rightToes");
        reveal_strlit("right_toe");
        reveal_strlit("leftToes");
        reveal_strlit("left_toe");
        let v = VRM_BONE_TABLE[14].0@;
        let p = VRM_BONE_TABLE[14].1@;
        assert(v.subrange(0, 5) =~= "right"@);
        assert("left"@ + v.subrange(5, v.len() as int) =~= VRM_BONE_TABLE[13].0@);
        if starts_with(p, left_prefix()) {
            lemma_first_char(p, left_prefix());
        }
        assert(p.subrange(0, 6) =~= right_prefix());
        assert(left_prefix() + p.subrange(6, p.len() as int) =~= VRM_BONE_TABLE[13].1@);
        if starts_with(v, "left"@) {
            lemma_first_char(v, "left"@);
        }
        assert(humanoid_layout()[34].name == p);
    } else if m == 15 {
        reveal_strlit("leftShoulder");
        reveal_strlit("left_clavicle");
        reveal_strlit("rightShoulder");
        reveal_strlit("right_clavicle");
        let v = VRM_BONE_TABLE[15].0@;
        let p = VRM_BONE_TABLE[15].1@;
        assert(v.subrange(0, 4) =~= "left"@);
        assert("right"@ + v.subrange(4, v.len() as int) =~= VRM_BONE_TABLE[16].0@);
        assert(p.subrange(0, 5) =~= left_prefix());
        assert(right_prefix() + p.subrange(5, p.len() as int) =~= VRM_BONE_TABLE[16].1@);
        if starts_with(v, "right"@) {
            lemma_first_char(v, "right"@);
        }
        assert(humanoid_layout()[17].name == p);
    } else if m == 16 {
        reveal_strlit("rightShoulder");
        reveal_strlit("right_clavicle");
        reveal_strlit("leftShoulder");
        reveal_strlit("left_clavicle");
        let v = VRM_BONE_TABLE[16].0@;
        let p = VRM_BONE_TABLE[16].1@;
        assert(v.subrange(0, 5) =~= "right"@);
        assert("left"@ + v.subrange(5, v.len() as int) =~= VRM_BONE_TABLE[15].0@);
        if starts_with(p, left_prefix()) {
            lemma_first_char(p, left_prefix());
        }
        assert(p.subrange(0, 6) =~= right_prefix());
        assert(left_prefix() + p.subrange(6, p.len() as int) =~= VRM_BONE_TABLE[15].1@);
        if starts_with(v, "left"@) {
            lemma_first_char(v, "left"@);
        }
        assert(humanoid_layout()[26].name == p);
    } else if m == 17 {
        reveal_strlit("leftUpperArm");
        reveal_strlit("left_shoulder");
        reveal_strlit("rightUpperArm");
        reveal_strlit("right_shoulder");
        let v = VRM_BONE_TABLE[17].0@;
        let p = VRM_BONE_TABLE[17].1@;
        assert(v.subrange(0, 4) =~= "left"@);
        assert("right"@ + v.subrange(4, v.len() as int) =~= VRM_BONE_TABLE[18].0@);
        assert(p.subrange(0, 5) =~= left_prefix());
        assert(right_prefix() + p.subrange(5, p.len() as int) =~= VRM_BONE_TABLE[18].1@);
        if starts_with(v, "right"@) {
            lemma_first_char(v, "right"@);
        }
        assert(humanoid_layout()[18].name == p);
    } else if m == 18 {
        reveal_strlit("rightUpperArm");
        reveal_strlit("right_shoulder");
        reveal_strlit("leftUpperArm");
        reveal_strlit("left_shoulder");
        let v = VRM_BONE_TABLE[18].0@;
        let p = VRM_BONE_TABLE[18].1@;
        assert(v.subrange(0, 5) =~= "right"@);
        assert("left"@ + v.subrange(5, v.len() as int) =~= VRM_BONE_TABLE[17].0@);
        if starts_with(p, left_prefix()) {
            lemma_first_char(p, left_prefix());
        }
        assert(p.subrange(0, 6) =~= right_prefix());
        assert(left_prefix() + p.subrange(6, p.len() as int) =~= VRM_BONE_TABLE[17].1@);
        if starts_with(v, "left"@) {
            lemma_first_char(v, "left"@);
        }
        assert(humanoid_layout()[27].name == p);
    } else if m == 19 {
        reveal_strlit("leftLowerArm");
        reveal_strlit("left_elbow");
        reveal_strlit("rightLowerArm");
        reveal_strlit("right_elbow");
        let v = VRM_BONE_TABLE[19].0@;
        let p = VRM_BONE_TABLE[19].1@;
        assert(v.subrange(0, 4) =~= "left"@);
        assert("right"@ + v.subrange(4, v.len() as int) =~= VRM_BONE_TABLE[20].0@);
        assert(p.subrange(0, 5) =~= left_prefix());
        assert(right_prefix() + p.subrange(5, p.len() as int) =~= VRM_BONE_TABLE[20].1@);
        if starts_with(v, "right"@) {
            lemma_first_char(v, "right"@);
        }
        assert(humanoid_layout()[19].name == p);
    } else if m == 20 {
        reveal_strlit("rightLowerArm");
        reveal_strlit("right_elbow");
        reveal_strlit("leftLowerArm");
        reveal_strlit("left_elbow");
        let v = VRM_BONE_TABLE[20].0@;
        let p = VRM_BONE_TABLE[20].1@;
        assert(v.subrange(0, 5) =~= "right"@);
        assert("left"@ + v.subrange(5, v.len() as int) =~= VRM_BONE_TABLE[19].0@);
        if starts_with(p, left_prefix()) {
            lemma_first_char(p, left_prefix());
        }
        assert(p.subrange(0, 6) =~= right_prefix());
        assert(left_prefix() + p.subrange(6, p.len() as int) =~= VRM_BONE_TABLE[19].1@);
        if starts_with(v, "left"@) {
            lemma_first_char(v, "left"@);
        }
        assert(humanoid_layout()[28].name == p);
    } else if m == 21 {
        reveal_strlit("leftHand");
        reveal_strlit("left_wrist");
        reveal_strlit("rightHand");
        reveal_strlit("right_wrist");
        let v = VRM_BONE_TABLE[21].0@;
        let p = VRM_BONE_TABLE[21].1@;
        assert(v.subrange(0, 4) =~= "left"@);
        assert("right"@ + v.subrange(4, v.len() as int) =~= VRM_BONE_TABLE[22].0@);
        assert(p.subrange(0, 5) =~= left_prefix());
        assert(right_prefix() + p.subrange(5, p.len() as int) =~= VRM_BONE_TABLE[22].1@);
        if starts_with(v, "right"@) {
            lemma_first_char(v, "right"@);
        }
        assert(humanoid_layout()[20].name == p);
    } else if m == 22 {
        reveal_strlit("rightHand");
        reveal_strlit("right_wrist");
        reveal_strlit("leftHand");
        reveal_strlit("left_wrist");
        let v = VRM_BONE_TABLE[22].0@;
        let p = VRM_BONE_TABLE[22].1@;
        assert(v.subrange(0, 5) =~= "right"@);
        assert("left"@ + v.subrange(5, v.len() as int) =~= VRM_BONE_TABLE[21].0@);
        if starts_with(p, left_prefix()) {
            lemma_first_char(p, left_prefix());
        }
        assert(p.subrange(0, 6) =~= right_prefix());
        assert(left_prefix() + p.subrange(6, p.len() as int) =~= VRM_BONE_TABLE[21].1@);
        if starts_with(v, "left"@) {
            lemma_first_char(v, "left"@);
        }
        assert(humanoid_layout()[29].name == p);
    }
}

/// [`row_facts`] of the left finger rows.
proof fn lemma_left_finger_rows(m: int)
    requires
        23 <= m <= 37,
    ensures
        row_facts(m),
{
    reveal_strlit("left");
    reveal_strlit("right");
    if m == 23 {
        reveal_strlit("leftThumbMetacarpal");
        reveal_strlit("left_thumb_metacarpal");
        reveal_strlit("rightThumbMetacarpal");
        reveal_strlit("right_thumb_metacarpal");
        let v = VRM_BONE_TABLE[23].0@;
        let p = VRM_BONE_TABLE[23].1@;
        assert(v.subrange(0, 4) =~= "left"@);
        assert("right"@ + v.subrange(4, v.len() as int) =~= VRM_BONE_TABLE[38].0@);
        assert(p.subrange(0, 5) =~= left_prefix());
        assert(right_prefix() + p.subrange(5, p.len() as int) =~= VRM_BONE_TABLE[38].1@);
        if starts_with(v, "right"@) {
            lemma_first_char(v, "right"@);
        }
        reveal_strlit("_thumb_");
        assert(p.subrange(4, 4int + "_thumb_"@.len()) =~= "_thumb_"@);
    } else if m == 24 {
        reveal_strlit("leftThumbProximal");
        reveal_strlit("left_thumb_proximal");
        reveal_strlit("rightThumbProximal");
        reveal_strlit("right_thumb_proximal");
        let v = VRM_BONE_TABLE[24].0@;
        let p = VRM_BONE_TABLE[24].1@;
        assert(v.subrange(0, 4) =~= "left"@);
        assert("right"@ + v.subrange(4, v.len() as int) =~= VRM_BONE_TABLE[39].0@);
        assert(p.subrange(0, 5) =~= left_prefix());
        assert(right_prefix() + p.subrange(5, p.len() as int) =~= VRM_BONE_TABLE[39].1@);
        if starts_with(v, "right"@) {
            lemma_first_char(v, "right"@);
        }
        reveal_strlit("_thumb_");
        assert(p.subrange(4, 4int + "_thumb_"@.len()) =~= "_thumb_"@);
    } else if m == 25 {
        reveal_strlit("leftThumbDistal");
        reveal_strlit("left_thumb_distal");
        reveal_strlit("rightThumbDistal");
        reveal_strlit("right_thumb_distal");
        let v = VRM_BONE_TABLE[25].0@;
        let p = VRM_BONE_TABLE[25].1@;
        assert(v.subrange(0, 4) =~= "left"@);
        assert("right"@ + v.subrange(4, v.len() as int) =~= VRM_BONE_TABLE[40].0@);
        assert(p.subrange(0, 5) =~= left_prefix());
        assert(right_prefix() + p.subrange(5, p.len() as int) =~= VRM_BONE_TABLE[40].1@);
        if starts_with(v, "right"@) {
            lemma_first_char(v, "right"@);
        }
        reveal_strlit("_thumb_");
        assert(p.subrange(4, 4int + "_thumb_"@.len()) =~= "_thumb_"@);
    } else if m == 26 {
        reveal_strlit("leftIndexProximal");
        reveal_strlit("left_index_proximal");
        reveal_strlit("rightIndexProximal");
        reveal_strlit("right_index_proximal");
        let v = VRM_BONE_TABLE[26].0@;
        let p = VRM_BONE_TABLE[26].1@;
        assert(v.subrange(0, 4) =~= "left"@);
        assert("right"@ + v.subrange(4, v.len() as int) =~= VRM_BONE_TABLE[41].0@);
        assert(p.subrange(0, 5) =~= left_prefix());
        assert(right_prefix() + p.subrange(5, p.len() as int) =~= VRM_BONE_TABLE[41].1@);
        if starts_with(v, "right"@) {
            lemma_first_char(v, "right"@);
        }
        reveal_strlit("_index_");
        assert(p.subrange(4, 4int + "_index_"@.len()) =~= "_index_"@);
    } else if m == 27 {
        reveal_strlit("leftIndexIntermediate");
        reveal_strlit("left_index_intermediate");
        reveal_strlit("rightIndexIntermediate");
        reveal_strlit("right_index_intermediate");
        let v = VRM_BONE_TABLE[27].0@;
        let p = VRM_BONE_TABLE[27].1@;
        assert(v.subrange(0, 4) =~= "left"@);
        assert("right"@ + v.subrange(4, v.len() as int) =~= VRM_BONE_TABLE[42].0@);
        assert(p.subrange(0, 5) =~= left_prefix());
        assert(right_prefix() + p.subrange(5, p.len() as int) =~= VRM_BONE_TABLE[42].1@);
        if starts_with(v, "right"@) {
            lemma_first_char(v, "right"@);
        }
        reveal_strlit("_index_");
        assert(p.subrange(4, 4int + "_index_"@.len()) =~= "_index_"@);
    } else if m == 28 {
        reveal_strlit("leftIndexDistal");
        reveal_strlit("left_index_distal");
        reveal_strlit("rightIndexDistal");
        reveal_strlit("right_index_distal");
        let v = VRM_BONE_TABLE[28].0@;
        let p = VRM_BONE_TABLE[28].1@;
        assert(v.subrange(0, 4) =~= "left"@);
        assert("right"@ + v.subrange(4, v.len() as int) =~= VRM_BONE_TABLE[43].0@);
        assert(p.subrange(0, 5) =~= left_prefix());
        assert(right_prefix() + p.subrange(5, p.len() as int) =~= VRM_BONE_TABLE[43].1@);
        if starts_with(v, "right"@) {
            lemma_first_char(v, "right"@);
        }
        reveal_strlit("_index_");
        assert(p.subrange(4, 4int + "_index_"@.len()) =~= "_index_"@);
    } else if m == 29 {
        reveal_strlit("leftMiddleProximal");
        reveal_strlit("left_middle_proximal");
        reveal_strlit("rightMiddleProximal");
        reveal_strlit("right_middle_proximal");
        let v = VRM_BONE_TABLE[29].0@;
        let p = VRM_BONE_TABLE[29].1@;
        assert(v.subrange(0, 4) =~= "left"@);
        assert("right"@ + v.subrange(4, v.len() as int) =~= VRM_BONE_TABLE[44].0@);
        assert(p.subrange(0, 5) =~= left_prefix());
        assert(right_prefix() + p.subrange(5, p.len() as int) =~= VRM_BONE_TABLE[44].1@);
        if starts_with(v, "right"@) {
            lemma_first_char(v, "right"@);
        }
        reveal_strlit("_middle_");
        assert(p.subrange(4, 4int + "_middle_"@.len()) =~= "_middle_"@);
    } else if m == 30 {
        reveal_strlit("leftMiddleIntermediate");
        reveal_strlit("left_middle_intermediate");
        reveal_strlit("rightMiddleIntermediate");
        reveal_strlit("right_middle_intermediate");
        let v = VRM_BONE_TABLE[30].0@;
        let p = VRM_BONE_TABLE[30].1@;
        assert(v.subrange(0, 4) =~= "left"@);
        assert("right"@ + v.subrange(4, v.len() as int) =~= VRM_BONE_TABLE[45].0@);
        assert(p.subrange(0, 5) =~= left_prefix());
        assert(right_prefix() + p.subrange(5, p.len() as int) =~= VRM_BONE_TABLE[45].1@);
        if starts_with(v, "right"@) {
            lemma_first_char(v, "right"@);
        }
        reveal_strlit("_middle_");
        assert(p.subrange(4, 4int + "_middle_"@.len()) =~= "_middle_"@);
    } else if m == 31 {
        reveal_strlit("leftMiddleDistal");
        reveal_strlit("left_middle_distal");
        reveal_strlit("rightMiddleDistal");
        reveal_strlit("right_middle_distal");
        let v = VRM_BONE_TABLE[31].0@;
        let p = VRM_BONE_TABLE[31].1@;
        assert(v.subrange(0, 4) =~= "left"@);
        assert("right"@ + v.subrange(4, v.len() as int) =~= VRM_BONE_TABLE[46].0@);
        assert(p.subrange(0, 5) =~= left_prefix());
        assert(right_prefix() + p.subrange(5, p.len() as int) =~= VRM_BONE_TABLE[46].1@);
        if starts_with(v, "right"@) {
            lemma_first_char(v, "right"@);
        }
        reveal_strlit("_middle_");
        assert(p.subrange(4, 4int + "_middle_"@.len()) =~= "_middle_"@);
    } else if m == 32 {
        reveal_strlit("leftRingProximal");
        reveal_strlit("left_ring_proximal");
        reveal_strlit("rightRingProximal");
        reveal_strlit("right_ring_proximal");
        let v = VRM_BONE_TABLE[32].0@;
        let p = VRM_BONE_TABLE[32].1@;
        assert(v.subrange(0, 4) =~= "left"@);
        assert("right"@ + v.subrange(4, v.len() as int) =~= VRM_BONE_TABLE[47].0@);
        assert(p.subrange(0, 5) =~= left_prefix());
        assert(right_prefix() + p.subrange(5, p.len() as int) =~= VRM_BONE_TABLE[47].1@);
        if starts_with(v, "right"@) {
            lemma_first_char(v, "right"@);
        }
        reveal_strlit("_ring_");
        assert(p.subrange(4, 4int + "_ring_"@.len()) =~= "_ring_"@);
    } else if m == 33 {
        reveal_strlit("leftRingIntermediate");
        reveal_strlit("left_ring_intermediate");
        reveal_strlit("rightRingIntermediate");
        reveal_strlit("right_ring_intermediate");
        let v = VRM_BONE_TABLE[33].0@;
        let p = VRM_BONE_TABLE[33].1@;
        assert(v.subrange(0, 4) =~= "left"@);
        assert("right"@ + v.subrange(4, v.len() as int) =~= VRM_BONE_TABLE[48].0@);
        assert(p.subrange(0, 5) =~= left_prefix());
        assert(right_prefix() + p.subrange(5, p.len() as int) =~= VRM_BONE_TABLE[48].1@);
        if starts_with(v, "right"@) {
            lemma_first_char(v, "right"@);
        }
        reveal_strlit("_ring_");
        assert(p.subrange(4, 4int + "_ring_"@.len()) =~= "_ring_"@);
    } else if m == 34 {
        reveal_strlit("leftRingDistal");
        reveal_strlit("left_ring_distal");
        reveal_strlit("rightRingDistal");
        reveal_strlit("right_ring_distal");
        let v = VRM_BONE_TABLE[34].0@;
        let p = VRM_BONE_TABLE[34].1@;
        assert(v.subrange(0, 4) =~= "left"@);
        assert("right"@ + v.subrange(4, v.len() as int) =~= VRM_BONE_TABLE[49].0@);
        assert(p.subrange(0, 5) =~= left_prefix());
        assert(right_prefix() + p.subrange(5, p.len() as int) =~= VRM_BONE_TABLE[49].1@);
        if starts_with(v, "right"@) {
            lemma_first_char(v, "right"@);
        }
        reveal_strlit("_ring_");
        assert(p.subrange(4, 4int + "_ring_"@.len()) =~= "_ring_"@);
    } else if m == 35 {
        reveal_strlit("leftLittleProximal");
        reveal_strlit("left_little_proximal");
        reveal_strlit("rightLittleProximal");
        reveal_strlit("right_little_proximal");
        let v = VRM_BONE_TABLE[35].0@;
        let p = VRM_BONE_TABLE[35].1@;
        assert(v.subrange(0, 4) =~= "left"@);
        assert("right"@ + v.subrange(4, v.len() as int) =~= VRM_BONE_TABLE[50].0@);
        assert(p.subrange(0, 5) =~= left_prefix());
        assert(right_prefix() + p.subrange(5, p.len() as int) =~= VRM_BONE_TABLE[50].1@);
        if starts_with(v, "right"@) {
            lemma_first_char(v, "right"@);
        }
        reveal_strlit("_little_");
        assert(p.subrange(4, 4int + "_little_"@.len()) =~= "_little_"@);
    } else if m == 36 {
        reveal_strlit("leftLittleIntermediate");
        reveal_strlit("left_little_intermediate");
        reveal_strlit("rightLittleIntermediate");
        reveal_strlit("right_little_intermediate");
        let v = VRM_BONE_TABLE[36].0@;
        let p = VRM_BONE_TABLE[36].1@;
        assert(v.subrange(0, 4) =~= "left"@);
        assert("right"@ + v.subrange(4, v.len() as int) =~= VRM_BONE_TABLE[51].0@);
        assert(p.subrange(0, 5) =~= left_prefix());
        assert(right_prefix() + p.subrange(5, p.len() as int) =~= VRM_BONE_TABLE[51].1@);
        if starts_with(v, "right"@) {
            lemma_first_char(v, "right"@);
        }
        reveal_strlit("_little_");
        assert(p.subrange(4, 4int + "_little_"@.len()) =~= "_little_"@);
    } else if m == 37 {
        reveal_strlit("leftLittleDistal");
        reveal_strlit("left_little_distal");
        reveal_strlit("rightLittleDistal");
        reveal_strlit("right_little_distal");
        let v = VRM_BONE_TABLE[37].0@;
        let p = VRM_BONE_TABLE[37].1@;
        assert(v.subrange(0, 4) =~= "left"@);
        assert("right"@ + v.subrange(4, v.len() as int) =~= VRM_BONE_TABLE[52].0@);
        assert(p.subrange(0, 5) =~= left_prefix());
        assert(right_prefix() + p.subrange(5, p.len() as int) =~= VRM_BONE_TABLE[52].1@);
        if starts_with(v, "right"@) {
            lemma_first_char(v, "right"@);
        }
        reveal_strlit("_little_");
        assert(p.subrange(4, 4int + "_little_"@.len()) =~= "_little_"@);
    }
}

/// [`row_facts`] of the right finger rows.
proof fn lemma_right_finger_rows(m: int)
    requires
        38 <= m <= 52,
    ensures
        row_facts(m),
{
    reveal_strlit("left");
    reveal_strlit("right");
    if m == 38 {
        reveal_strlit("rightThumbMetacarpal");
        reveal_strlit("right_thumb_metacarpal");
        reveal_strlit("leftThumbMetacarpal");
        reveal_strlit("left_thumb_metacarpal");
        let v = VRM_BONE_TABLE[38].0@;
        let p = VRM_BONE_TABLE[38].1@;
        assert(v.subrange(0, 5) =~= "right"@);
        assert("left"@ + v.subrange(5, v.len() as int) =~= VRM_BONE_TABLE[23].0@);
        if starts_with(p, left_prefix()) {
            lemma_first_char(p, left_prefix());
        }
        assert(p.subrange(0, 6) =~= right_prefix());
        assert(left_prefix() + p.subrange(6, p.len() as int) =~= VRM_BONE_TABLE[23].1@);
        if starts_with(v, "left"@) {
            lemma_first_char(v, "left"@);
        }
        reveal_strlit("_thumb_");
        assert(p.subrange(5, 5int + "_thumb_"@.len()) =~= "_thumb_"@);
    } else if m == 39 {
        reveal_strlit("rightThumbProximal");
        reveal_strlit("right_thumb_proximal");
        reveal_strlit("leftThumbProximal");
        reveal_strlit("left_thumb_proximal");
        let v = VRM_BONE_TABLE[39].0@;
        let p = VRM_BONE_TABLE[39].1@;
        assert(v.subrange(0, 5) =~= "right"@);
        assert("left"@ + v.subrange(5, v.len() as int) =~= VRM_BONE_TABLE[24].0@);
        if starts_with(p, left_prefix()) {
            lemma_first_char(p, left_prefix());
        }
        assert(p.subrange(0, 6) =~= right_prefix());
        assert(left_prefix() + p.subrange(6, p.len() as int) =~= VRM_BONE_TABLE[24].1@);
        if starts_with(v, "left"@) {
            lemma_first_char(v, "left"@);
        }
        reveal_strlit("_thumb_");
        assert(p.subrange(5, 5int + "_thumb_"@.len()) =~= "_thumb_"@);
    } else if m == 40 {
        reveal_strlit("rightThumbDistal");
        reveal_strlit("right_thumb_distal");
        reveal_strlit("leftThumbDistal");
        reveal_strlit("left_thumb_distal");
        let v = VRM_BONE_TABLE[40].0@;
        let p = VRM_BONE_TABLE[40].1@;
        assert(v.subrange(0, 5) =~= "right"@);
        assert("left"@ + v.subrange(5, v.len() as int) =~= VRM_BONE_TABLE[25].0@);
        if starts_with(p, left_prefix()) {
            lemma_first_char(p, left_prefix());
        }
        assert(p.subrange(0, 6) =~= right_prefix());
        assert(left_prefix() + p.subrange(6, p.len() as int) =~= VRM_BONE_TABLE[25].1@);
        if starts_with(v, "left"@) {
            lemma_first_char(v, "left"@);
        }
        reveal_strlit("_thumb_");
        assert(p.subrange(5, 5int + "_thumb_"@.len()) =~= "_thumb_"@);
    } else if m == 41 {
        reveal_strlit("rightIndexProximal");
        reveal_strlit("right_index_proximal");
        reveal_strlit("leftIndexProximal");
        reveal_strlit("left_index_proximal");
        let v = VRM_BONE_TABLE[41].0@;
        let p = VRM_BONE_TABLE[41].1@;
        assert(v.subrange(0, 5) =~= "right"@);
        assert("left"@ + v.subrange(5, v.len() as int) =~= VRM_BONE_TABLE[26].0@);
        if starts_with(p, left_prefix()) {
            lemma_first_char(p, left_prefix());
        }
        assert(p.subrange(0, 6) =~= right_prefix());
        assert(left_prefix() + p.subrange(6, p.len() as int) =~= VRM_BONE_TABLE[26].1@);
        if starts_with(v, "left"@) {
            lemma_first_char(v, "left"@);
        }
        reveal_strlit("_index_");
        assert(p.subrange(5, 5int + "_index_"@.len()) =~= "_index_"@);
    } else if m == 42 {
        reveal_strlit("rightIndexIntermediate");
        reveal_strlit("right_index_intermediate");
        reveal_strlit("leftIndexIntermediate");
        reveal_strlit("left_index_intermediate");
        let v = VRM_BONE_TABLE[42].0@;
        let p = VRM_BONE_TABLE[42].1@;
        assert(v.subrange(0, 5) =~= "right"@);
        assert("left"@ + v.subrange(5, v.len() as int) =~= VRM_BONE_TABLE[27].0@);
        if starts_with(p, left_prefix()) {
            lemma_first_char(p, left_prefix());
        }
        assert(p.subrange(0, 6) =~= right_prefix());
        assert(left_prefix() + p.subrange(6, p.len() as int) =~= VRM_BONE_TABLE[27].1@);
        if starts_with(v, "left"@) {
            lemma_first_char(v, "left"@);
        }
        reveal_strlit("_index_");
        assert(p.subrange(5, 5int + "_index_"@.len()) =~= "_index_"@);
    } else if m == 43 {
        reveal_strlit("rightIndexDistal");
        reveal_strlit("right_index_distal");
        reveal_strlit("leftIndexDistal");
        reveal_strlit("left_index_distal");
        let v = VRM_BONE_TABLE[43].0@;
        let p = VRM_BONE_TABLE[43].1@;
        assert(v.subrange(0, 5) =~= "right"@);
        assert("left"@ + v.subrange(5, v.len() as int) =~= VRM_BONE_TABLE[28].0@);
        if starts_with(p, left_prefix()) {
            lemma_first_char(p, left_prefix());
        }
        assert(p.subrange(0, 6) =~= right_prefix());
        assert(left_prefix() + p.subrange(6, p.len() as int) =~= VRM_BONE_TABLE[28].1@);
        if starts_with(v, "left"@) {
            lemma_first_char(v, "left"@);
        }
        reveal_strlit("_index_");
        assert(p.subrange(5, 5int + "_index_"@.len()) =~= "_index_"@);
    } else if m == 44 {
        reveal_strlit("rightMiddleProximal");
        reveal_strlit("right_middle_proximal");
        reveal_strlit("leftMiddleProximal");
        reveal_strlit("left_middle_proximal");
        let v = VRM_BONE_TABLE[44].0@;
        let p = VRM_BONE_TABLE[44].1@;
        assert(v.subrange(0, 5) =~= "right"@);
        assert("left"@ + v.subrange(5, v.len() as int) =~= VRM_BONE_TABLE[29].0@);
        if starts_with(p, left_prefix()) {
            lemma_first_char(p, left_prefix());
        }
        assert(p.subrange(0, 6) =~= right_prefix());
        assert(left_prefix() + p.subrange(6, p.len() as int) =~= VRM_BONE_TABLE[29].1@);
        if starts_with(v, "left"@) {
            lemma_first_char(v, "left"@);
        }
        reveal_strlit("_middle_");
        assert(p.subrange(5, 5int + "_middle_"@.len()) =~= "_middle_"@);
    } else if m == 45 {
        reveal_strlit("rightMiddleIntermediate");
        reveal_strlit("right_middle_intermediate");
        reveal_strlit("leftMiddleIntermediate");
        reveal_strlit("left_middle_intermediate");
        let v = VRM_BONE_TABLE[45].0@;
        let p = VRM_BONE_TABLE[45].1@;
        assert(v.subrange(0, 5) =~= "right"@);
        assert("left"@ + v.subrange(5, v.len() as int) =~= VRM_BONE_TABLE[30].0@);
        if starts_with(p, left_prefix()) {
            lemma_first_char(p, left_prefix());
        }
        assert(p.subrange(0, 6) =~= right_prefix());
        assert(left_prefix() + p.subrange(6, p.len() as int) =~= VRM_BONE_TABLE[30].1@);
        if starts_with(v, "left"@) {
            lemma_first_char(v, "left"@);
        }
        reveal_strlit("_middle_");
        assert(p.subrange(5, 5int + "_middle_"@.len()) =~= "_middle_"@);
    } else if m == 46 {
        reveal_strlit("rightMiddleDistal");
        reveal_strlit("right_middle_distal");
        reveal_strlit("leftMiddleDistal");
        reveal_strlit("left_middle_distal");
        let v = VRM_BONE_TABLE[46].0@;
        let p = VRM_BONE_TABLE[46].1@;
        assert(v.subrange(0, 5) =~= "right"@);
        assert("left"@ + v.subrange(5, v.len() as int) =~= VRM_BONE_TABLE[31].0@);
        if starts_with(p, left_prefix()) {
            lemma_first_char(p, left_prefix());
        }
        assert(p.subrange(0, 6) =~= right_prefix());
        assert(left_prefix() + p.subrange(6, p.len() as int) =~= VRM_BONE_TABLE[31].1@);
        if starts_with(v, "left"@) {
            lemma_first_char(v, "left"@);
        }
        reveal_strlit("_middle_");
        assert(p.subrange(5, 5int + "_middle_"@.len()) =~= "_middle_"@);
    } else if m == 47 {
        reveal_strlit("rightRingProximal");
        reveal_strlit("right_ring_proximal");
        reveal_strlit("leftRingProximal");
        reveal_strlit("left_ring_proximal");
        let v = VRM_BONE_TABLE[47].0@;
        let p = VRM_BONE_TABLE[47].1@;
        assert(v.subrange(0, 5) =~= "right"@);
        assert("left"@ + v.subrange(5, v.len() as int) =~= VRM_BONE_TABLE[32].0@);
        if starts_with(p, left_prefix()) {
            lemma_first_char(p, left_prefix());
        }
        assert(p.subrange(0, 6) =~= right_prefix());
        assert(left_prefix() + p.subrange(6, p.len() as int) =~= VRM_BONE_TABLE[32].1@);
        if starts_with(v, "left"@) {
            lemma_first_char(v, "left"@);
        }
        reveal_strlit("_ring_");
        assert(p.subrange(5, 5int + "_ring_"@.len()) =~= "_ring_"@);
    } else if m == 48 {
        reveal_strlit("rightRingIntermediate");
        reveal_strlit("right_ring_intermediate");
        reveal_strlit("leftRingIntermediate");
        reveal_strlit("left_ring_intermediate");
        let v = VRM_BONE_TABLE[48].0@;
        let p = VRM_BONE_TABLE[48].1@;
        assert(v.subrange(0, 5) =~= "right"@);
        assert("left"@ + v.subrange(5, v.len() as int) =~= VRM_BONE_TABLE[33].0@);
        if starts_with(p, left_prefix()) {
            lemma_first_char(p, left_prefix());
        }
        assert(p.subrange(0, 6) =~= right_prefix());
        assert(left_prefix() + p.subrange(6, p.len() as int) =~= VRM_BONE_TABLE[33].1@);
        if starts_with(v, "left"@) {
            lemma_first_char(v, "left"@);
        }
        reveal_strlit("_ring_");
        assert(p.subrange(5, 5int + "_ring_"@.len()) =~= "_ring_"@);
    } else if m == 49 {
        reveal_strlit("rightRingDistal");
        reveal_strlit("right_ring_distal");
        reveal_strlit("leftRingDistal");
        reveal_strlit("left_ring_distal");
        let v = VRM_BONE_TABLE[49].0@;
        let p = VRM_BONE_TABLE[49].1@;
        assert(v.subrange(0, 5) =~= "right"@);
        assert("left"@ + v.subrange(5, v.len() as int) =~= VRM_BONE_TABLE[34].0@);
        if starts_with(p, left_prefix()) {
            lemma_first_char(p, left_prefix());
        }
        assert(p.subrange(0, 6) =~= right_prefix());
        assert(left_prefix() + p.subrange(6, p.len() as int) =~= VRM_BONE_TABLE[34].1@);
        if starts_with(v, "left"@) {
            lemma_first_char(v, "left"@);
        }
        reveal_strlit("_ring_");
        assert(p.subrange(5, 5int + "_ring_"@.len()) =~= "_ring_"@);
    } else if m == 50 {
        reveal_strlit("rightLittleProximal");
        reveal_strlit("right_little_proximal");
        reveal_strlit("leftLittleProximal");
        reveal_strlit("left_little_proximal");
        let v = VRM_BONE_TABLE[50].0@;
        let p = VRM_BONE_TABLE[50].1@;
        assert(v.subrange(0, 5) =~= "right"@);
        assert("left"@ + v.subrange(5, v.len() as int) =~= VRM_BONE_TABLE[35].0@);
        if starts_with(p, left_prefix()) {
            lemma_first_char(p, left_prefix());
        }
        assert(p.subrange(0, 6) =~= right_prefix());
        assert(left_prefix() + p.subrange(6, p.len() as int) =~= VRM_BONE_TABLE[35].1@);
        if starts_with(v, "left"@) {
            lemma_first_char(v, "left"@);
        }
        reveal_strlit("_little_");
        assert(p.subrange(5, 5int + "_little_"@.len()) =~= "_little_"@);
    } else if m == 51 {
        reveal_strlit("rightLittleIntermediate");
        reveal_strlit("right_little_intermediate");
        reveal_strlit("leftLittleIntermediate");
        reveal_strlit("left_little_intermediate");
        let v = VRM_BONE_TABLE[51].0@;
        let p = VRM_BONE_TABLE[51].1@;
        assert(v.subrange(0, 5) =~= "right"@);
        assert("left"@ + v.subrange(5, v.len() as int) =~= VRM_BONE_TABLE[36].0@);
        if starts_with(p, left_prefix()) {
            lemma_first_char(p, left_prefix());
        }
        assert(p.subrange(0, 6) =~= right_prefix());
        assert(left_prefix() + p.subrange(6, p.len() as int) =~= VRM_BONE_TABLE[36].1@);
        if starts_with(v, "left"@) {
            lemma_first_char(v, "left"@);
        }
        reveal_strlit("_little_");
        assert(p.subrange(5, 5int + "_little_"@.len()) =~= "_little_"@);
    } else if m == 52 {
        reveal_strlit("rightLittleDistal");
        reveal_strlit("right_little_distal");
        reveal_strlit("leftLittleDistal");
        reveal_strlit("left_little_distal");
        let v = VRM_BONE_TABLE[52].0@;
        let p = VRM_BONE_TABLE[52].1@;
        assert(v.subrange(0, 5) =~= "right"@);
        assert("left"@ + v.subrange(5, v.len() as int) =~= VRM_BONE_TABLE[37].0@);
        if starts_with(p, left_prefix()) {
            lemma_first_char(p, left_prefix());
        }
        assert(p.subrange(0, 6) =~= right_prefix());
        assert(left_prefix() + p.subrange(6, p.len() as int) =~= VRM_BONE_TABLE[37].1@);
        if starts_with(v, "left"@) {
            lemma_first_char(v, "left"@);
        }
        reveal_strlit("_little_");
        assert(p.subrange(5, 5int + "_little_"@.len()) =~= "_little_"@);
    }
}

/// [`row_facts`] of every row.
proof fn lemma_row_facts(m: int)
    requires
        0 <= m < 53,
    ensures
        row_facts(m),
{
    if m <= 6 {
        lemma_trunk_rows(m);
    } else if m <= 22 {
        lemma_limb_rows(m);
    } else if m <= 37 {
        lemma_left_finger_rows(m);
    } else {
        lemma_right_finger_rows(m);
    }
}
/// The row a bone name `v` is found at, from row `k` on.
proof fn lemma_found(v: Seq<char>, k: int) -> (m: int)
    requires
        0 <= k,
        bone_joint_from(v, k) is Some,
    ensures
        k <= m < 53,
        v == VRM_BONE_TABLE[m].0@,
        bone_joint_from(v, k) == Some(VRM_BONE_TABLE[m].1@),
    decreases 53 - k,
{
    if VRM_BONE_TABLE[k].0@ == v {
        k
    } else {
        lemma_found(v, k + 1)
    }
}

/// Looking up the bone of row `m` from row `k` on finds row `m`: no earlier
/// row has its name.
proof fn lemma_lookup(m: int, k: int)
    requires
        0 <= k <= m < 53,
    ensures
        bone_joint_from(VRM_BONE_TABLE[m].0@, k) == Some(VRM_BONE_TABLE[m].1@),
    decreases m - k,
{
    if k < m {
        lemma_row_facts(k);
        lemma_row_facts(m);
        assert(VRM_BONE_TABLE[k].0@ != VRM_BONE_TABLE[m].0@);
        lemma_lookup(m, k + 1);
    }
}

proof fn lemma_last_named_found(j: Seq<crate::skeleton::Joint>, name: Seq<char>, r: int, n: int)
    requires
        0 <= r < n <= j.len(),
        j[r].name@ == name,
    ensures
        last_named(j, name, n) >= r,
    decreases n,
{
    if n - 1 != r && j[n - 1].name@ != name {
        lemma_last_named_found(j, name, r, n - 1);
    }
}

/// A left bone drives the mirror image of the joint its right counterpart
/// drives, and a right bone the mirror image of its left counterpart's:
/// `leftX` and `rightX` map to `left_y` and `right_y`.
pub proof fn lemma_bone_mirror(v: Seq<char>)
    requires
        bone_joint(v) is Some,
    ensures
        starts_with(v, "left"@) ==> bone_joint("right"@ + v.subrange(4, v.len() as int)) == counterpart_of(
            bone_joint(v)->0,
        ),
        starts_with(v, "right"@) ==> bone_joint("left"@ + v.subrange(5, v.len() as int)) == counterpart_of(
            bone_joint(v)->0,
        ),
{
    let m = lemma_found(v, 0);
    lemma_row_facts(m);
    lemma_lookup(mirror_row(m), 0);
}

/// No two bone names drive the same joint.
pub proof fn lemma_bone_joints_distinct(v: Seq<char>, w: Seq<char>)
    requires
        bone_joint(v) is Some,
        bone_joint(w) == bone_joint(v),
    ensures
        v == w,
{
    let a = lemma_found(v, 0);
    let b = lemma_found(w, 0);
    lemma_row_facts(a);
    lemma_row_facts(b);
}

/// Every joint a bone drives that is not a finger joint is a joint of the
/// default humanoid `s` (the skeleton `Skeleton::humanoid_default` builds):
/// looking it up by name finds it.
pub proof fn lemma_bone_joints_in_humanoid(v: Seq<char>, s: Skeleton)
    requires
        bone_joint(v) is Some,
        !is_finger(bone_joint(v)->0),
        s.joint_seq().len() == 35,
        forall|i: int| 0 <= i < 35 ==> joint_matches_row(#[trigger] s.joint_seq()[i], humanoid_layout()[i]),
    ensures
        last_named(s.joint_seq(), bone_joint(v)->0, 35) >= 0,
{
    let m = lemma_found(v, 0);
    lemma_row_facts(m);
    let p = VRM_BONE_TABLE[m].1@;
    let r = choose|r: int| 0 <= r < 35 && #[trigger] humanoid_layout()[r].name == p;
    assert(joint_matches_row(s.joint_seq()[r], humanoid_layout()[r]));
    lemma_last_named_found(s.joint_seq(), p, r, 35);
}

} // verus!
