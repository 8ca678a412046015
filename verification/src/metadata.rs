//! Reading Roblox instance properties: asset identifiers, material names,
//! enum values and geometry classes.
use vstd::prelude::*;

verus! {

/// The first position at or after `i` where `pat` occurs in `s`.
pub open spec fn find_from(s: Seq<char>, pat: Seq<char>, i: int) -> Option<int>
    decreases s.len() + 1 - i,
{
    if i < 0 || i + pat.len() > s.len() {
        None
    } else if s.subrange(i, i + pat.len()) == pat {
        Some(i)
    } else {
        find_from(s, pat, i + 1)
    }
}

/// The position of the first of `a`, `b`, `c` at or after `i` in `s`, or
/// `s.len()` when none occurs.
pub open spec fn stop_index(s: Seq<char>, a: char, b: char, c: char, i: int) -> int
    decreases s.len() - i,
{
    if i < 0 || i >= s.len() {
        s.len() as int
    } else if s[i] == a || s[i] == b || s[i] == c {
        i
    } else {
        stop_index(s, a, b, c, i + 1)
    }
}

proof fn lemma_find_from(s: Seq<char>, pat: Seq<char>, i: int)
    ensures
        find_from(s, pat, i) matches Some(j) ==> i <= j && j + pat.len() <= s.len() && s.subrange(
            j,
            j + pat.len(),
        ) == pat,
    decreases s.len() + 1 - i,
{
    if !(i < 0 || i + pat.len() > s.len()) && s.subrange(i, i + pat.len()) != pat {
        lemma_find_from(s, pat, i + 1);
    }
}

proof fn lemma_stop_index(s: Seq<char>, a: char, b: char, c: char, i: int)
    requires
        0 <= i,
    ensures
        i <= stop_index(s, a, b, c, i) <= s.len() || (i > s.len() && stop_index(s, a, b, c, i) == s.len()),
        0 <= stop_index(s, a, b, c, i) <= s.len(),
    decreases s.len() - i,
{
    if i < s.len() && !(s[i] == a || s[i] == b || s[i] == c) {
        lemma_stop_index(s, a, b, c, i + 1);
    }
}

/// The part of `s` before the first of `a`, `b`, `c`.
pub open spec fn until_any(s: Seq<char>, a: char, b: char, c: char) -> Seq<char> {
    s.take(stop_index(s, a, b, c, 0))
}

/// `s` begins with `p`.
pub open spec fn starts_with_chars(s: Seq<char>, p: Seq<char>) -> bool {
    s.len() >= p.len() && s.take(p.len() as int) == p
}

/// Every character of `s` is an ASCII digit.
pub open spec fn all_ascii_digits(s: Seq<char>) -> bool {
    forall|i: int| 0 <= i < s.len() ==> '0' <= #[trigger] s[i] <= '9'
}

/// The identifier candidate of an asset URI: after the first `id=` up to
/// `&`, `#` or `/`; failing that, after an `rbxassetid://` or `rbxasset://`
/// scheme up to `?`, `#` or `/`.
pub open spec fn asset_id_candidate(u: Seq<char>) -> Option<Seq<char>> {
    match find_from(u, "id="@, 0) {
        Some(i) => Some(until_any(u.skip(i + 3), '&', '#', '/')),
        None => if starts_with_chars(u, "rbxassetid://"@) {
            Some(until_any(u.skip(13), '?', '#', '/'))
        } else if starts_with_chars(u, "rbxasset://"@) {
            Some(until_any(u.skip(11), '?', '#', '/'))
        } else {
            None
        },
    }
}

/// The numeric asset identifier of a Roblox content URI: the candidate, when
/// it is a non-empty run of ASCII digits.
pub open spec fn parse_asset_id_spec(u: Seq<char>) -> Option<Seq<char>> {
    match asset_id_candidate(u) {
        Some(c) => if c.len() > 0 && all_ascii_digits(c) {
            Some(c)
        } else {
            None
        },
        None => None,
    }
}

/// Finds the first occurrence of `pat` (at most 13 characters) in `s`.
fn find_pattern(s: &str, pat: &str) -> (r: Option<usize>)
    requires
        pat@.len() >= 1,
    ensures
        match r {
            Some(i) => find_from(s@, pat@, 0) == Some(i as int),
            None => find_from(s@, pat@, 0) is None,
        },
{
    let n = s.unicode_len();
    let m = pat.unicode_len();
    if m > n {
        return None;
    }
    let mut i: usize = 0;
    while i <= n - m
        invariant
            n == s@.len(),
            m == pat@.len(),
            1 <= m <= n,
            0 <= i <= n - m + 1,
            find_from(s@, pat@, 0) == find_from(s@, pat@, i as int),
        decreases n + 1 - i,
    {
        let mut k: usize = 0;
        let mut same = true;
        assert(s@.subrange(i as int, i as int) =~= pat@.take(0));
        while k < m
            invariant
                n == s@.len(),
                m == pat@.len(),
                i + m <= n,
                0 <= k <= m,
                same == (s@.subrange(i as int, i + k) == pat@.take(k as int)),
            decreases m - k,
        {
            let equal = s.get_char(i + k) == pat.get_char(k);
            assert(s@.subrange(i as int, i + k + 1) =~= s@.subrange(i as int, i + k).push(s@[i + k]));
            assert(pat@.take(k + 1) =~= pat@.take(k as int).push(pat@[k as int]));
            if !equal {
                assert(s@.subrange(i as int, i + k + 1)[k as int] != pat@.take(k + 1)[k as int]);
            }
            proof {
                if !same {
                    if s@.subrange(i as int, i + k + 1) == pat@.take(k + 1) {
                        assert(s@.subrange(i as int, i + k) =~= s@.subrange(i as int, i + k + 1).take(k as int));
                        assert(pat@.take(k as int) =~= pat@.take(k + 1).take(k as int));
                    }
                }
            }
            same = same && equal;
            k = k + 1;
        }
        assert(pat@.take(m as int) =~= pat@);
        if same {
            return Some(i);
        }
        i = i + 1;
    }
    None
}

/// The position of the first of `a`, `b`, `c` in `s`, or its length.
fn find_stop(s: &str, a: char, b: char, c: char) -> (r: usize)
    ensures
        r == stop_index(s@, a, b, c, 0),
{
    let n = s.unicode_len();
    let mut i: usize = 0;
    while i < n
        invariant
            n == s@.len(),
            0 <= i <= n,
            stop_index(s@, a, b, c, 0) == stop_index(s@, a, b, c, i as int),
        decreases n - i,
    {
        let ch = s.get_char(i);
        if ch == a || ch == b || ch == c {
            return i;
        }
        i = i + 1;
    }
    i
}

/// Whether `s` begins with `p`.
fn str_starts_with(s: &str, p: &str) -> (r: bool)
    ensures
        r == starts_with_chars(s@, p@),
{
    let n = s.unicode_len();
    let m = p.unicode_len();
    if m > n {
        return false;
    }
    let mut k: usize = 0;
    while k < m
        invariant
            n == s@.len(),
            m == p@.len(),
            m <= n,
            0 <= k <= m,
            s@.take(k as int) == p@.take(k as int),
        decreases m - k,
    {
        if s.get_char(k) != p.get_char(k) {
            assert(s@.take(m as int)[k as int] != p@[k as int]);
            return false;
        }
        assert(s@.take(k + 1) =~= s@.take(k as int).push(s@[k as int]));
        assert(p@.take(k + 1) =~= p@.take(k as int).push(p@[k as int]));
        k = k + 1;
    }
    assert(p@.take(m as int) =~= p@);
    true
}

/// Whether every character of `s` is an ASCII digit.
fn str_all_ascii_digits(s: &str) -> (r: bool)
    ensures
        r == all_ascii_digits(s@),
{
    let n = s.unicode_len();
    let mut i: usize = 0;
    while i < n
        invariant
            n == s@.len(),
            0 <= i <= n,
            forall|k: int| 0 <= k < i ==> '0' <= #[trigger] s@[k] <= '9',
        decreases n - i,
    {
        let ch = s.get_char(i);
        if !('0' <= ch && ch <= '9') {
            return false;
        }
        i = i + 1;
    }
    true
}

/// Extracts the numeric asset identifier from a Roblox content URI such as
/// `rbxassetid://123` or `https://www.roblox.com/asset/?id=456`.
pub fn parse_asset_id(uri: &str) -> (r: Option<String>)
    ensures
        match r {
            Some(id) => parse_asset_id_spec(uri@) == Some(id@),
            None => parse_asset_id_spec(uri@) is None,
        },
{
    let n = uri.unicode_len();
    proof { reveal_strlit("id="); }
    let found = find_pattern(uri, "id=");
    proof { lemma_find_from(uri@, "id="@, 0); }
    let candidate: &str = match found {
        Some(i) => {
            let rest = uri.substring_char(i + 3, n);
            let stop = find_stop(rest, '&', '#', '/');
            proof { lemma_stop_index(rest@, '&', '#', '/', 0); }
            rest.substring_char(0, stop)
        },
        None => {
            if str_starts_with(uri, "rbxassetid://") {
                proof { reveal_strlit("rbxassetid://"); }
                let rest = uri.substring_char(13, n);
                let stop = find_stop(rest, '?', '#', '/');
                proof { lemma_stop_index(rest@, '?', '#', '/', 0); }
                rest.substring_char(0, stop)
            } else if str_starts_with(uri, "rbxasset://") {
                proof { reveal_strlit("rbxasset://"); }
                let rest = uri.substring_char(11, n);
                let stop = find_stop(rest, '?', '#', '/');
                proof { lemma_stop_index(rest@, '?', '#', '/', 0); }
                rest.substring_char(0, stop)
            } else {
                return None;
            }
        },
    };
    assert(asset_id_candidate(uri@) == Some(candidate@));
    if candidate.unicode_len() > 0 && str_all_ascii_digits(candidate) {
        Some(candidate.to_owned())
    } else {
        None
    }
}

/// The lower-case name of a Roblox `Material` enum value; unknown values
/// are plastic.
pub open spec fn material_name_spec(value: u32) -> Seq<char> {
    if value == 256 {
        "plastic"@
    } else if value == 272 {
        "smoothplastic"@
    } else if value == 288 {
        "neon"@
    } else if value == 512 {
        "wood"@
    } else if value == 528 {
        "woodplanks"@
    } else if value == 784 {
        "marble"@
    } else if value == 788 {
        "basalt"@
    } else if value == 800 {
        "slate"@
    } else if value == 804 {
        "crackedlava"@
    } else if value == 816 {
        "concrete"@
    } else if value == 820 {
        "limestone"@
    } else if value == 832 {
        "granite"@
    } else if value == 836 {
        "pavement"@
    } else if value == 848 {
        "brick"@
    } else if value == 864 {
        "pebble"@
    } else if value == 880 {
        "cobblestone"@
    } else if value == 896 {
        "rock"@
    } else if value == 912 {
        "sandstone"@
    } else if value == 1040 {
        "corrodedmetal"@
    } else if value == 1056 {
        "diamondplate"@
    } else if value == 1072 {
        "foil"@
    } else if value == 1088 {
        "metal"@
    } else if value == 1280 {
        "grass"@
    } else if value == 1284 {
        "leafygrass"@
    } else if value == 1296 {
        "sand"@
    } else if value == 1312 {
        "fabric"@
    } else if value == 1328 {
        "snow"@
    } else if value == 1344 {
        "mud"@
    } else if value == 1360 {
        "ground"@
    } else if value == 1376 {
        "asphalt"@
    } else if value == 1392 {
        "salt"@
    } else if value == 1536 {
        "ice"@
    } else if value == 1552 {
        "glacier"@
    } else if value == 1568 {
        "glass"@
    } else if value == 1584 {
        "forcefield"@
    } else if value == 1792 {
        "air"@
    } else if value == 2048 {
        "water"@
    } else if value == 2304 {
        "cardboard"@
    } else if value == 2305 {
        "carpet"@
    } else if value == 2306 {
        "ceramictiles"@
    } else if value == 2307 {
        "clayrooftiles"@
    } else if value == 2308 {
        "roofshingles"@
    } else if value == 2309 {
        "leather"@
    } else if value == 2310 {
        "plaster"@
    } else if value == 2311 {
        "rubber"@
    } else {
        "plastic"@
    }
}

/// Distinct Roblox materials keep distinct names: two different enum
/// values give the same name only when both are plastic (`Plastic`
/// itself or a value the table does not know).
pub proof fn lemma_material_names_distinct(a: u32, b: u32)
    requires
        a != b,
        material_name_spec(a) == material_name_spec(b),
    ensures
        material_name_spec(a) == "plastic"@,
{
    if a == 272 {
        lemma_only_272_is_smoothplastic(b);
    } else if a == 288 {
        lemma_only_288_is_neon(b);
    } else if a == 512 {
        lemma_only_512_is_wood(b);
    } else if a == 528 {
        lemma_only_528_is_woodplanks(b);
    } else if a == 784 {
        lemma_only_784_is_marble(b);
    } else if a == 788 {
        lemma_only_788_is_basalt(b);
    } else if a == 800 {
        lemma_only_800_is_slate(b);
    } else if a == 804 {
        lemma_only_804_is_crackedlava(b);
    } else if a == 816 {
        lemma_only_816_is_concrete(b);
    } else if a == 820 {
        lemma_only_820_is_limestone(b);
    } else if a == 832 {
        lemma_only_832_is_granite(b);
    } else if a == 836 {
        lemma_only_836_is_pavement(b);
    } else if a == 848 {
        lemma_only_848_is_brick(b);
    } else if a == 864 {
        lemma_only_864_is_pebble(b);
    } else if a == 880 {
        lemma_only_880_is_cobblestone(b);
    } else if a == 896 {
        lemma_only_896_is_rock(b);
    } else if a == 912 {
        lemma_only_912_is_sandstone(b);
    } else if a == 1040 {
        lemma_only_1040_is_corrodedmetal(b);
    } else if a == 1056 {
        lemma_only_1056_is_diamondplate(b);
    } else if a == 1072 {
        lemma_only_1072_is_foil(b);
    } else if a == 1088 {
        lemma_only_1088_is_metal(b);
    } else if a == 1280 {
        lemma_only_1280_is_grass(b);
    } else if a == 1284 {
        lemma_only_1284_is_leafygrass(b);
    } else if a == 1296 {
        lemma_only_1296_is_sand(b);
    } else if a == 1312 {
        lemma_only_1312_is_fabric(b);
    } else if a == 1328 {
        lemma_only_1328_is_snow(b);
    } else if a == 1344 {
        lemma_only_1344_is_mud(b);
    } else if a == 1360 {
        lemma_only_1360_is_ground(b);
    } else if a == 1376 {
        lemma_only_1376_is_asphalt(b);
    } else if a == 1392 {
        lemma_only_1392_is_salt(b);
    } else if a == 1536 {
        lemma_only_1536_is_ice(b);
    } else if a == 1552 {
        lemma_only_1552_is_glacier(b);
    } else if a == 1568 {
        lemma_only_1568_is_glass(b);
    } else if a == 1584 {
        lemma_only_1584_is_forcefield(b);
    } else if a == 1792 {
        lemma_only_1792_is_air(b);
    } else if a == 2048 {
        lemma_only_2048_is_water(b);
    } else if a == 2304 {
        lemma_only_2304_is_cardboard(b);
    } else if a == 2305 {
        lemma_only_2305_is_carpet(b);
    } else if a == 2306 {
        lemma_only_2306_is_ceramictiles(b);
    } else if a == 2307 {
        lemma_only_2307_is_clayrooftiles(b);
    } else if a == 2308 {
        lemma_only_2308_is_roofshingles(b);
    } else if a == 2309 {
        lemma_only_2309_is_leather(b);
    } else if a == 2310 {
        lemma_only_2310_is_plaster(b);
    } else if a == 2311 {
        lemma_only_2311_is_rubber(b);
    }
}

proof fn lemma_only_272_is_smoothplastic(b: u32)
    requires
        material_name_spec(b) == "smoothplastic"@,
    ensures
        b == 272,
{
    reveal_strlit("air"); reveal_strlit("asphalt"); reveal_strlit("basalt"); reveal_strlit("brick"); reveal_strlit("cardboard");
    reveal_strlit("carpet"); reveal_strlit("ceramictiles"); reveal_strlit("clayrooftiles"); reveal_strlit("cobblestone"); reveal_strlit("concrete");
    reveal_strlit("corrodedmetal"); reveal_strlit("crackedlava"); reveal_strlit("diamondplate"); reveal_strlit("fabric"); reveal_strlit("foil");
    reveal_strlit("forcefield"); reveal_strlit("glacier"); reveal_strlit("glass"); reveal_strlit("granite"); reveal_strlit("grass");
    reveal_strlit("ground"); reveal_strlit("ice"); reveal_strlit("leafygrass"); reveal_strlit("leather"); reveal_strlit("limestone");
    reveal_strlit("marble"); reveal_strlit("metal"); reveal_strlit("mud"); reveal_strlit("neon"); reveal_strlit("pavement");
    reveal_strlit("pebble"); reveal_strlit("plaster"); reveal_strlit("plastic"); reveal_strlit("rock"); reveal_strlit("roofshingles");
    reveal_strlit("rubber"); reveal_strlit("salt"); reveal_strlit("sand"); reveal_strlit("sandstone"); reveal_strlit("slate");
    reveal_strlit("smoothplastic"); reveal_strlit("snow"); reveal_strlit("water"); reveal_strlit("wood"); reveal_strlit("woodplanks");
    let x = material_name_spec(b);
    assert(x.len() == "smoothplastic"@.len());
    assert(x[0] == "smoothplastic"@[0] && x[1] == "smoothplastic"@[1] && x[2] == "smoothplastic"@[2]);
    assert(x[3] == "smoothplastic"@[3] && x[4] == "smoothplastic"@[4] && x[5] == "smoothplastic"@[5]);
}

proof fn lemma_only_288_is_neon(b: u32)
    requires
        material_name_spec(b) == "neon"@,
    ensures
        b == 288,
{
    reveal_strlit("air"); reveal_strlit("asphalt"); reveal_strlit("basalt"); reveal_strlit("brick"); reveal_strlit("cardboard");
    reveal_strlit("carpet"); reveal_strlit("ceramictiles"); reveal_strlit("clayrooftiles"); reveal_strlit("cobblestone"); reveal_strlit("concrete");
    reveal_strlit("corrodedmetal"); reveal_strlit("crackedlava"); reveal_strlit("diamondplate"); reveal_strlit("fabric"); reveal_strlit("foil");
    reveal_strlit("forcefield"); reveal_strlit("glacier"); reveal_strlit("glass"); reveal_strlit("granite"); reveal_strlit("grass");
    reveal_strlit("ground"); reveal_strlit("ice"); reveal_strlit("leafygrass"); reveal_strlit("leather"); reveal_strlit("limestone");
    reveal_strlit("marble"); reveal_strlit("metal"); reveal_strlit("mud"); reveal_strlit("neon"); reveal_strlit("pavement");
    reveal_strlit("pebble"); reveal_strlit("plaster"); reveal_strlit("plastic"); reveal_strlit("rock"); reveal_strlit("roofshingles");
    reveal_strlit("rubber"); reveal_strlit("salt"); reveal_strlit("sand"); reveal_strlit("sandstone"); reveal_strlit("slate");
    reveal_strlit("smoothplastic"); reveal_strlit("snow"); reveal_strlit("water"); reveal_strlit("wood"); reveal_strlit("woodplanks");
    let x = material_name_spec(b);
    assert(x.len() == "neon"@.len());
    assert(x[0] == "neon"@[0] && x[1] == "neon"@[1] && x[2] == "neon"@[2]);
    assert(x[3] == "neon"@[3] && x[4] == "neon"@[4] && x[5] == "neon"@[5]);
}

proof fn lemma_only_512_is_wood(b: u32)
    requires
        material_name_spec(b) == "wood"@,
    ensures
        b == 512,
{
    reveal_strlit("air"); reveal_strlit("asphalt"); reveal_strlit("basalt"); reveal_strlit("brick"); reveal_strlit("cardboard");
    reveal_strlit("carpet"); reveal_strlit("ceramictiles"); reveal_strlit("clayrooftiles"); reveal_strlit("cobblestone"); reveal_strlit("concrete");
    reveal_strlit("corrodedmetal"); reveal_strlit("crackedlava"); reveal_strlit("diamondplate"); reveal_strlit("fabric"); reveal_strlit("foil");
    reveal_strlit("forcefield"); reveal_strlit("glacier"); reveal_strlit("glass"); reveal_strlit("granite"); reveal_strlit("grass");
    reveal_strlit("ground"); reveal_strlit("ice"); reveal_strlit("leafygrass"); reveal_strlit("leather"); reveal_strlit("limestone");
    reveal_strlit("marble"); reveal_strlit("metal"); reveal_strlit("mud"); reveal_strlit("neon"); reveal_strlit("pavement");
    reveal_strlit("pebble"); reveal_strlit("plaster"); reveal_strlit("plastic"); reveal_strlit("rock"); reveal_strlit("roofshingles");
    reveal_strlit("rubber"); reveal_strlit("salt"); reveal_strlit("sand"); reveal_strlit("sandstone"); reveal_strlit("slate");
    reveal_strlit("smoothplastic"); reveal_strlit("snow"); reveal_strlit("water"); reveal_strlit("wood"); reveal_strlit("woodplanks");
    let x = material_name_spec(b);
    assert(x.len() == "wood"@.len());
    assert(x[0] == "wood"@[0] && x[1] == "wood"@[1] && x[2] == "wood"@[2]);
    assert(x[3] == "wood"@[3] && x[4] == "wood"@[4] && x[5] == "wood"@[5]);
}

proof fn lemma_only_528_is_woodplanks(b: u32)
    requires
        material_name_spec(b) == "woodplanks"@,
    ensures
        b == 528,
{
    reveal_strlit("air"); reveal_strlit("asphalt"); reveal_strlit("basalt"); reveal_strlit("brick"); reveal_strlit("cardboard");
    reveal_strlit("carpet"); reveal_strlit("ceramictiles"); reveal_strlit("clayrooftiles"); reveal_strlit("cobblestone"); reveal_strlit("concrete");
    reveal_strlit("corrodedmetal"); reveal_strlit("crackedlava"); reveal_strlit("diamondplate"); reveal_strlit("fabric"); reveal_strlit("foil");
    reveal_strlit("forcefield"); reveal_strlit("glacier"); reveal_strlit("glass"); reveal_strlit("granite"); reveal_strlit("grass");
    reveal_strlit("ground"); reveal_strlit("ice"); reveal_strlit("leafygrass"); reveal_strlit("leather"); reveal_strlit("limestone");
    reveal_strlit("marble"); reveal_strlit("metal"); reveal_strlit("mud"); reveal_strlit("neon"); reveal_strlit("pavement");
    reveal_strlit("pebble"); reveal_strlit("plaster"); reveal_strlit("plastic"); reveal_strlit("rock"); reveal_strlit("roofshingles");
    reveal_strlit("rubber"); reveal_strlit("salt"); reveal_strlit("sand"); reveal_strlit("sandstone"); reveal_strlit("slate");
    reveal_strlit("smoothplastic"); reveal_strlit("snow"); reveal_strlit("water"); reveal_strlit("wood"); reveal_strlit("woodplanks");
    let x = material_name_spec(b);
    assert(x.len() == "woodplanks"@.len());
    assert(x[0] == "woodplanks"@[0] && x[1] == "woodplanks"@[1] && x[2] == "woodplanks"@[2]);
    assert(x[3] == "woodplanks"@[3] && x[4] == "woodplanks"@[4] && x[5] == "woodplanks"@[5]);
}

proof fn lemma_only_784_is_marble(b: u32)
    requires
        material_name_spec(b) == "marble"@,
    ensures
        b == 784,
{
    reveal_strlit("air"); reveal_strlit("asphalt"); reveal_strlit("basalt"); reveal_strlit("brick"); reveal_strlit("cardboard");
    reveal_strlit("carpet"); reveal_strlit("ceramictiles"); reveal_strlit("clayrooftiles"); reveal_strlit("cobblestone"); reveal_strlit("concrete");
    reveal_strlit("corrodedmetal"); reveal_strlit("crackedlava"); reveal_strlit("diamondplate"); reveal_strlit("fabric"); reveal_strlit("foil");
    reveal_strlit("forcefield"); reveal_strlit("glacier"); reveal_strlit("glass"); reveal_strlit("granite"); reveal_strlit("grass");
    reveal_strlit("ground"); reveal_strlit("ice"); reveal_strlit("leafygrass"); reveal_strlit("leather"); reveal_strlit("limestone");
    reveal_strlit("marble"); reveal_strlit("metal"); reveal_strlit("mud"); reveal_strlit("neon"); reveal_strlit("pavement");
    reveal_strlit("pebble"); reveal_strlit("plaster"); reveal_strlit("plastic"); reveal_strlit("rock"); reveal_strlit("roofshingles");
    reveal_strlit("rubber"); reveal_strlit("salt"); reveal_strlit("sand"); reveal_strlit("sandstone"); reveal_strlit("slate");
    reveal_strlit("smoothplastic"); reveal_strlit("snow"); reveal_strlit("water"); reveal_strlit("wood"); reveal_strlit("woodplanks");
    let x = material_name_spec(b);
    assert(x.len() == "marble"@.len());
    assert(x[0] == "marble"@[0] && x[1] == "marble"@[1] && x[2] == "marble"@[2]);
    assert(x[3] == "marble"@[3] && x[4] == "marble"@[4] && x[5] == "marble"@[5]);
}

proof fn lemma_only_788_is_basalt(b: u32)
    requires
        material_name_spec(b) == "basalt"@,
    ensures
        b == 788,
{
    reveal_strlit("air"); reveal_strlit("asphalt"); reveal_strlit("basalt"); reveal_strlit("brick"); reveal_strlit("cardboard");
    reveal_strlit("carpet"); reveal_strlit("ceramictiles"); reveal_strlit("clayrooftiles"); reveal_strlit("cobblestone"); reveal_strlit("concrete");
    reveal_strlit("corrodedmetal"); reveal_strlit("crackedlava"); reveal_strlit("diamondplate"); reveal_strlit("fabric"); reveal_strlit("foil");
    reveal_strlit("forcefield"); reveal_strlit("glacier"); reveal_strlit("glass"); reveal_strlit("granite"); reveal_strlit("grass");
    reveal_strlit("ground"); reveal_strlit("ice"); reveal_strlit("leafygrass"); reveal_strlit("leather"); reveal_strlit("limestone");
    reveal_strlit("marble"); reveal_strlit("metal"); reveal_strlit("mud"); reveal_strlit("neon"); reveal_strlit("pavement");
    reveal_strlit("pebble"); reveal_strlit("plaster"); reveal_strlit("plastic"); reveal_strlit("rock"); reveal_strlit("roofshingles");
    reveal_strlit("rubber"); reveal_strlit("salt"); reveal_strlit("sand"); reveal_strlit("sandstone"); reveal_strlit("slate");
    reveal_strlit("smoothplastic"); reveal_strlit("snow"); reveal_strlit("water"); reveal_strlit("wood"); reveal_strlit("woodplanks");
    let x = material_name_spec(b);
    assert(x.len() == "basalt"@.len());
    assert(x[0] == "basalt"@[0] && x[1] == "basalt"@[1] && x[2] == "basalt"@[2]);
    assert(x[3] == "basalt"@[3] && x[4] == "basalt"@[4] && x[5] == "basalt"@[5]);
}

proof fn lemma_only_800_is_slate(b: u32)
    requires
        material_name_spec(b) == "slate"@,
    ensures
        b == 800,
{
    reveal_strlit("air"); reveal_strlit("asphalt"); reveal_strlit("basalt"); reveal_strlit("brick"); reveal_strlit("cardboard");
    reveal_strlit("carpet"); reveal_strlit("ceramictiles"); reveal_strlit("clayrooftiles"); reveal_strlit("cobblestone"); reveal_strlit("concrete");
    reveal_strlit("corrodedmetal"); reveal_strlit("crackedlava"); reveal_strlit("diamondplate"); reveal_strlit("fabric"); reveal_strlit("foil");
    reveal_strlit("forcefield"); reveal_strlit("glacier"); reveal_strlit("glass"); reveal_strlit("granite"); reveal_strlit("grass");
    reveal_strlit("ground"); reveal_strlit("ice"); reveal_strlit("leafygrass"); reveal_strlit("leather"); reveal_strlit("limestone");
    reveal_strlit("marble"); reveal_strlit("metal"); reveal_strlit("mud"); reveal_strlit("neon"); reveal_strlit("pavement");
    reveal_strlit("pebble"); reveal_strlit("plaster"); reveal_strlit("plastic"); reveal_strlit("rock"); reveal_strlit("roofshingles");
    reveal_strlit("rubber"); reveal_strlit("salt"); reveal_strlit("sand"); reveal_strlit("sandstone"); reveal_strlit("slate");
    reveal_strlit("smoothplastic"); reveal_strlit("snow"); reveal_strlit("water"); reveal_strlit("wood"); reveal_strlit("woodplanks");
    let x = material_name_spec(b);
    assert(x.len() == "slate"@.len());
    assert(x[0] == "slate"@[0] && x[1] == "slate"@[1] && x[2] == "slate"@[2]);
    assert(x[3] == "slate"@[3] && x[4] == "slate"@[4] && x[5] == "slate"@[5]);
}

proof fn lemma_only_804_is_crackedlava(b: u32)
    requires
        material_name_spec(b) == "crackedlava"@,
    ensures
        b == 804,
{
    reveal_strlit("air"); reveal_strlit("asphalt"); reveal_strlit("basalt"); reveal_strlit("brick"); reveal_strlit("cardboard");
    reveal_strlit("carpet"); reveal_strlit("ceramictiles"); reveal_strlit("clayrooftiles"); reveal_strlit("cobblestone"); reveal_strlit("concrete");
    reveal_strlit("corrodedmetal"); reveal_strlit("crackedlava"); reveal_strlit("diamondplate"); reveal_strlit("fabric"); reveal_strlit("foil");
    reveal_strlit("forcefield"); reveal_strlit("glacier"); reveal_strlit("glass"); reveal_strlit("granite"); reveal_strlit("grass");
    reveal_strlit("ground"); reveal_strlit("ice"); reveal_strlit("leafygrass"); reveal_strlit("leather"); reveal_strlit("limestone");
    reveal_strlit("marble"); reveal_strlit("metal"); reveal_strlit("mud"); reveal_strlit("neon"); reveal_strlit("pavement");
    reveal_strlit("pebble"); reveal_strlit("plaster"); reveal_strlit("plastic"); reveal_strlit("rock"); reveal_strlit("roofshingles");
    reveal_strlit("rubber"); reveal_strlit("salt"); reveal_strlit("sand"); reveal_strlit("sandstone"); reveal_strlit("slate");
    reveal_strlit("smoothplastic"); reveal_strlit("snow"); reveal_strlit("water"); reveal_strlit("wood"); reveal_strlit("woodplanks");
    let x = material_name_spec(b);
    assert(x.len() == "crackedlava"@.len());
    assert(x[0] == "crackedlava"@[0] && x[1] == "crackedlava"@[1] && x[2] == "crackedlava"@[2]);
    assert(x[3] == "crackedlava"@[3] && x[4] == "crackedlava"@[4] && x[5] == "crackedlava"@[5]);
}

proof fn lemma_only_816_is_concrete(b: u32)
    requires
        material_name_spec(b) == "concrete"@,
    ensures
        b == 816,
{
    reveal_strlit("air"); reveal_strlit("asphalt"); reveal_strlit("basalt"); reveal_strlit("brick"); reveal_strlit("cardboard");
    reveal_strlit("carpet"); reveal_strlit("ceramictiles"); reveal_strlit("clayrooftiles"); reveal_strlit("cobblestone"); reveal_strlit("concrete");
    reveal_strlit("corrodedmetal"); reveal_strlit("crackedlava"); reveal_strlit("diamondplate"); reveal_strlit("fabric"); reveal_strlit("foil");
    reveal_strlit("forcefield"); reveal_strlit("glacier"); reveal_strlit("glass"); reveal_strlit("granite"); reveal_strlit("grass");
    reveal_strlit("ground"); reveal_strlit("ice"); reveal_strlit("leafygrass"); reveal_strlit("leather"); reveal_strlit("limestone");
    reveal_strlit("marble"); reveal_strlit("metal"); reveal_strlit("mud"); reveal_strlit("neon"); reveal_strlit("pavement");
    reveal_strlit("pebble"); reveal_strlit("plaster"); reveal_strlit("plastic"); reveal_strlit("rock"); reveal_strlit("roofshingles");
    reveal_strlit("rubber"); reveal_strlit("salt"); reveal_strlit("sand"); reveal_strlit("sandstone"); reveal_strlit("slate");
    reveal_strlit("smoothplastic"); reveal_strlit("snow"); reveal_strlit("water"); reveal_strlit("wood"); reveal_strlit("woodplanks");
    let x = material_name_spec(b);
    assert(x.len() == "concrete"@.len());
    assert(x[0] == "concrete"@[0] && x[1] == "concrete"@[1] && x[2] == "concrete"@[2]);
    assert(x[3] == "concrete"@[3] && x[4] == "concrete"@[4] && x[5] == "concrete"@[5]);
}

proof fn lemma_only_820_is_limestone(b: u32)
    requires
        material_name_spec(b) == "limestone"@,
    ensures
        b == 820,
{
    reveal_strlit("air"); reveal_strlit("asphalt"); reveal_strlit("basalt"); reveal_strlit("brick"); reveal_strlit("cardboard");
    reveal_strlit("carpet"); reveal_strlit("ceramictiles"); reveal_strlit("clayrooftiles"); reveal_strlit("cobblestone"); reveal_strlit("concrete");
    reveal_strlit("corrodedmetal"); reveal_strlit("crackedlava"); reveal_strlit("diamondplate"); reveal_strlit("fabric"); reveal_strlit("foil");
    reveal_strlit("forcefield"); reveal_strlit("glacier"); reveal_strlit("glass"); reveal_strlit("granite"); reveal_strlit("grass");
    reveal_strlit("ground"); reveal_strlit("ice"); reveal_strlit("leafygrass"); reveal_strlit("leather"); reveal_strlit("limestone");
    reveal_strlit("marble"); reveal_strlit("metal"); reveal_strlit("mud"); reveal_strlit("neon"); reveal_strlit("pavement");
    reveal_strlit("pebble"); reveal_strlit("plaster"); reveal_strlit("plastic"); reveal_strlit("rock"); reveal_strlit("roofshingles");
    reveal_strlit("rubber"); reveal_strlit("salt"); reveal_strlit("sand"); reveal_strlit("sandstone"); reveal_strlit("slate");
    reveal_strlit("smoothplastic"); reveal_strlit("snow"); reveal_strlit("water"); reveal_strlit("wood"); reveal_strlit("woodplanks");
    let x = material_name_spec(b);
    assert(x.len() == "limestone"@.len());
    assert(x[0] == "limestone"@[0] && x[1] == "limestone"@[1] && x[2] == "limestone"@[2]);
    assert(x[3] == "limestone"@[3] && x[4] == "limestone"@[4] && x[5] == "limestone"@[5]);
}

proof fn lemma_only_832_is_granite(b: u32)
    requires
        material_name_spec(b) == "granite"@,
    ensures
        b == 832,
{
    reveal_strlit("air"); reveal_strlit("asphalt"); reveal_strlit("basalt"); reveal_strlit("brick"); reveal_strlit("cardboard");
    reveal_strlit("carpet"); reveal_strlit("ceramictiles"); reveal_strlit("clayrooftiles"); reveal_strlit("cobblestone"); reveal_strlit("concrete");
    reveal_strlit("corrodedmetal"); reveal_strlit("crackedlava"); reveal_strlit("diamondplate"); reveal_strlit("fabric"); reveal_strlit("foil");
    reveal_strlit("forcefield"); reveal_strlit("glacier"); reveal_strlit("glass"); reveal_strlit("granite"); reveal_strlit("grass");
    reveal_strlit("ground"); reveal_strlit("ice"); reveal_strlit("leafygrass"); reveal_strlit("leather"); reveal_strlit("limestone");
    reveal_strlit("marble"); reveal_strlit("metal"); reveal_strlit("mud"); reveal_strlit("neon"); reveal_strlit("pavement");
    reveal_strlit("pebble"); reveal_strlit("plaster"); reveal_strlit("plastic"); reveal_strlit("rock"); reveal_strlit("roofshingles");
    reveal_strlit("rubber"); reveal_strlit("salt"); reveal_strlit("sand"); reveal_strlit("sandstone"); reveal_strlit("slate");
    reveal_strlit("smoothplastic"); reveal_strlit("snow"); reveal_strlit("water"); reveal_strlit("wood"); reveal_strlit("woodplanks");
    let x = material_name_spec(b);
    assert(x.len() == "granite"@.len());
    assert(x[0] == "granite"@[0] && x[1] == "granite"@[1] && x[2] == "granite"@[2]);
    assert(x[3] == "granite"@[3] && x[4] == "granite"@[4] && x[5] == "granite"@[5]);
}

proof fn lemma_only_836_is_pavement(b: u32)
    requires
        material_name_spec(b) == "pavement"@,
    ensures
        b == 836,
{
    reveal_strlit("air"); reveal_strlit("asphalt"); reveal_strlit("basalt"); reveal_strlit("brick"); reveal_strlit("cardboard");
    reveal_strlit("carpet"); reveal_strlit("ceramictiles"); reveal_strlit("clayrooftiles"); reveal_strlit("cobblestone"); reveal_strlit("concrete");
    reveal_strlit("corrodedmetal"); reveal_strlit("crackedlava"); reveal_strlit("diamondplate"); reveal_strlit("fabric"); reveal_strlit("foil");
    reveal_strlit("forcefield"); reveal_strlit("glacier"); reveal_strlit("glass"); reveal_strlit("granite"); reveal_strlit("grass");
    reveal_strlit("ground"); reveal_strlit("ice"); reveal_strlit("leafygrass"); reveal_strlit("leather"); reveal_strlit("limestone");
    reveal_strlit("marble"); reveal_strlit("metal"); reveal_strlit("mud"); reveal_strlit("neon"); reveal_strlit("pavement");
    reveal_strlit("pebble"); reveal_strlit("plaster"); reveal_strlit("plastic"); reveal_strlit("rock"); reveal_strlit("roofshingles");
    reveal_strlit("rubber"); reveal_strlit("salt"); reveal_strlit("sand"); reveal_strlit("sandstone"); reveal_strlit("slate");
    reveal_strlit("smoothplastic"); reveal_strlit("snow"); reveal_strlit("water"); reveal_strlit("wood"); reveal_strlit("woodplanks");
    let x = material_name_spec(b);
    assert(x.len() == "pavement"@.len());
    assert(x[0] == "pavement"@[0] && x[1] == "pavement"@[1] && x[2] == "pavement"@[2]);
    assert(x[3] == "pavement"@[3] && x[4] == "pavement"@[4] && x[5] == "pavement"@[5]);
}

proof fn lemma_only_848_is_brick(b: u32)
    requires
        material_name_spec(b) == "brick"@,
    ensures
        b == 848,
{
    reveal_strlit("air"); reveal_strlit("asphalt"); reveal_strlit("basalt"); reveal_strlit("brick"); reveal_strlit("cardboard");
    reveal_strlit("carpet"); reveal_strlit("ceramictiles"); reveal_strlit("clayrooftiles"); reveal_strlit("cobblestone"); reveal_strlit("concrete");
    reveal_strlit("corrodedmetal"); reveal_strlit("crackedlava"); reveal_strlit("diamondplate"); reveal_strlit("fabric"); reveal_strlit("foil");
    reveal_strlit("forcefield"); reveal_strlit("glacier"); reveal_strlit("glass"); reveal_strlit("granite"); reveal_strlit("grass");
    reveal_strlit("ground"); reveal_strlit("ice"); reveal_strlit("leafygrass"); reveal_strlit("leather"); reveal_strlit("limestone");
    reveal_strlit("marble"); reveal_strlit("metal"); reveal_strlit("mud"); reveal_strlit("neon"); reveal_strlit("pavement");
    reveal_strlit("pebble"); reveal_strlit("plaster"); reveal_strlit("plastic"); reveal_strlit("rock"); reveal_strlit("roofshingles");
    reveal_strlit("rubber"); reveal_strlit("salt"); reveal_strlit("sand"); reveal_strlit("sandstone"); reveal_strlit("slate");
    reveal_strlit("smoothplastic"); reveal_strlit("snow"); reveal_strlit("water"); reveal_strlit("wood"); reveal_strlit("woodplanks");
    let x = material_name_spec(b);
    assert(x.len() == "brick"@.len());
    assert(x[0] == "brick"@[0] && x[1] == "brick"@[1] && x[2] == "brick"@[2]);
    assert(x[3] == "brick"@[3] && x[4] == "brick"@[4] && x[5] == "brick"@[5]);
}

proof fn lemma_only_864_is_pebble(b: u32)
    requires
        material_name_spec(b) == "pebble"@,
    ensures
        b == 864,
{
    reveal_strlit("air"); reveal_strlit("asphalt"); reveal_strlit("basalt"); reveal_strlit("brick"); reveal_strlit("cardboard");
    reveal_strlit("carpet"); reveal_strlit("ceramictiles"); reveal_strlit("clayrooftiles"); reveal_strlit("cobblestone"); reveal_strlit("concrete");
    reveal_strlit("corrodedmetal"); reveal_strlit("crackedlava"); reveal_strlit("diamondplate"); reveal_strlit("fabric"); reveal_strlit("foil");
    reveal_strlit("forcefield"); reveal_strlit("glacier"); reveal_strlit("glass"); reveal_strlit("granite"); reveal_strlit("grass");
    reveal_strlit("ground"); reveal_strlit("ice"); reveal_strlit("leafygrass"); reveal_strlit("leather"); reveal_strlit("limestone");
    reveal_strlit("marble"); reveal_strlit("metal"); reveal_strlit("mud"); reveal_strlit("neon"); reveal_strlit("pavement");
    reveal_strlit("pebble"); reveal_strlit("plaster"); reveal_strlit("plastic"); reveal_strlit("rock"); reveal_strlit("roofshingles");
    reveal_strlit("rubber"); reveal_strlit("salt"); reveal_strlit("sand"); reveal_strlit("sandstone"); reveal_strlit("slate");
    reveal_strlit("smoothplastic"); reveal_strlit("snow"); reveal_strlit("water"); reveal_strlit("wood"); reveal_strlit("woodplanks");
    let x = material_name_spec(b);
    assert(x.len() == "pebble"@.len());
    assert(x[0] == "pebble"@[0] && x[1] == "pebble"@[1] && x[2] == "pebble"@[2]);
    assert(x[3] == "pebble"@[3] && x[4] == "pebble"@[4] && x[5] == "pebble"@[5]);
}

proof fn lemma_only_880_is_cobblestone(b: u32)
    requires
        material_name_spec(b) == "cobblestone"@,
    ensures
        b == 880,
{
    reveal_strlit("air"); reveal_strlit("asphalt"); reveal_strlit("basalt"); reveal_strlit("brick"); reveal_strlit("cardboard");
    reveal_strlit("carpet"); reveal_strlit("ceramictiles"); reveal_strlit("clayrooftiles"); reveal_strlit("cobblestone"); reveal_strlit("concrete");
    reveal_strlit("corrodedmetal"); reveal_strlit("crackedlava"); reveal_strlit("diamondplate"); reveal_strlit("fabric"); reveal_strlit("foil");
    reveal_strlit("forcefield"); reveal_strlit("glacier"); reveal_strlit("glass"); reveal_strlit("granite"); reveal_strlit("grass");
    reveal_strlit("ground"); reveal_strlit("ice"); reveal_strlit("leafygrass"); reveal_strlit("leather"); reveal_strlit("limestone");
    reveal_strlit("marble"); reveal_strlit("metal"); reveal_strlit("mud"); reveal_strlit("neon"); reveal_strlit("pavement");
    reveal_strlit("pebble"); reveal_strlit("plaster"); reveal_strlit("plastic"); reveal_strlit("rock"); reveal_strlit("roofshingles");
    reveal_strlit("rubber"); reveal_strlit("salt"); reveal_strlit("sand"); reveal_strlit("sandstone"); reveal_strlit("slate");
    reveal_strlit("smoothplastic"); reveal_strlit("snow"); reveal_strlit("water"); reveal_strlit("wood"); reveal_strlit("woodplanks");
    let x = material_name_spec(b);
    assert(x.len() == "cobblestone"@.len());
    assert(x[0] == "cobblestone"@[0] && x[1] == "cobblestone"@[1] && x[2] == "cobblestone"@[2]);
    assert(x[3] == "cobblestone"@[3] && x[4] == "cobblestone"@[4] && x[5] == "cobblestone"@[5]);
}

proof fn lemma_only_896_is_rock(b: u32)
    requires
        material_name_spec(b) == "rock"@,
    ensures
        b == 896,
{
    reveal_strlit("air"); reveal_strlit("asphalt"); reveal_strlit("basalt"); reveal_strlit("brick"); reveal_strlit("cardboard");
    reveal_strlit("carpet"); reveal_strlit("ceramictiles"); reveal_strlit("clayrooftiles"); reveal_strlit("cobblestone"); reveal_strlit("concrete");
    reveal_strlit("corrodedmetal"); reveal_strlit("crackedlava"); reveal_strlit("diamondplate"); reveal_strlit("fabric"); reveal_strlit("foil");
    reveal_strlit("forcefield"); reveal_strlit("glacier"); reveal_strlit("glass"); reveal_strlit("granite"); reveal_strlit("grass");
    reveal_strlit("ground"); reveal_strlit("ice"); reveal_strlit("leafygrass"); reveal_strlit("leather"); reveal_strlit("limestone");
    reveal_strlit("marble"); reveal_strlit("metal"); reveal_strlit("mud"); reveal_strlit("neon"); reveal_strlit("pavement");
    reveal_strlit("pebble"); reveal_strlit("plaster"); reveal_strlit("plastic"); reveal_strlit("rock"); reveal_strlit("roofshingles");
    reveal_strlit("rubber"); reveal_strlit("salt"); reveal_strlit("sand"); reveal_strlit("sandstone"); reveal_strlit("slate");
    reveal_strlit("smoothplastic"); reveal_strlit("snow"); reveal_strlit("water"); reveal_strlit("wood"); reveal_strlit("woodplanks");
    let x = material_name_spec(b);
    assert(x.len() == "rock"@.len());
    assert(x[0] == "rock"@[0] && x[1] == "rock"@[1] && x[2] == "rock"@[2]);
    assert(x[3] == "rock"@[3] && x[4] == "rock"@[4] && x[5] == "rock"@[5]);
}

proof fn lemma_only_912_is_sandstone(b: u32)
    requires
        material_name_spec(b) == "sandstone"@,
    ensures
        b == 912,
{
    reveal_strlit("air"); reveal_strlit("asphalt"); reveal_strlit("basalt"); reveal_strlit("brick"); reveal_strlit("cardboard");
    reveal_strlit("carpet"); reveal_strlit("ceramictiles"); reveal_strlit("clayrooftiles"); reveal_strlit("cobblestone"); reveal_strlit("concrete");
    reveal_strlit("corrodedmetal"); reveal_strlit("crackedlava"); reveal_strlit("diamondplate"); reveal_strlit("fabric"); reveal_strlit("foil");
    reveal_strlit("forcefield"); reveal_strlit("glacier"); reveal_strlit("glass"); reveal_strlit("granite"); reveal_strlit("grass");
    reveal_strlit("ground"); reveal_strlit("ice"); reveal_strlit("leafygrass"); reveal_strlit("leather"); reveal_strlit("limestone");
    reveal_strlit("marble"); reveal_strlit("metal"); reveal_strlit("mud"); reveal_strlit("neon"); reveal_strlit("pavement");
    reveal_strlit("pebble"); reveal_strlit("plaster"); reveal_strlit("plastic"); reveal_strlit("rock"); reveal_strlit("roofshingles");
    reveal_strlit("rubber"); reveal_strlit("salt"); reveal_strlit("sand"); reveal_strlit("sandstone"); reveal_strlit("slate");
    reveal_strlit("smoothplastic"); reveal_strlit("snow"); reveal_strlit("water"); reveal_strlit("wood"); reveal_strlit("woodplanks");
    let x = material_name_spec(b);
    assert(x.len() == "sandstone"@.len());
    assert(x[0] == "sandstone"@[0] && x[1] == "sandstone"@[1] && x[2] == "sandstone"@[2]);
    assert(x[3] == "sandstone"@[3] && x[4] == "sandstone"@[4] && x[5] == "sandstone"@[5]);
}

proof fn lemma_only_1040_is_corrodedmetal(b: u32)
    requires
        material_name_spec(b) == "corrodedmetal"@,
    ensures
        b == 1040,
{
    reveal_strlit("air"); reveal_strlit("asphalt"); reveal_strlit("basalt"); reveal_strlit("brick"); reveal_strlit("cardboard");
    reveal_strlit("carpet"); reveal_strlit("ceramictiles"); reveal_strlit("clayrooftiles"); reveal_strlit("cobblestone"); reveal_strlit("concrete");
    reveal_strlit("corrodedmetal"); reveal_strlit("crackedlava"); reveal_strlit("diamondplate"); reveal_strlit("fabric"); reveal_strlit("foil");
    reveal_strlit("forcefield"); reveal_strlit("glacier"); reveal_strlit("glass"); reveal_strlit("granite"); reveal_strlit("grass");
    reveal_strlit("ground"); reveal_strlit("ice"); reveal_strlit("leafygrass"); reveal_strlit("leather"); reveal_strlit("limestone");
    reveal_strlit("marble"); reveal_strlit("metal"); reveal_strlit("mud"); reveal_strlit("neon"); reveal_strlit("pavement");
    reveal_strlit("pebble"); reveal_strlit("plaster"); reveal_strlit("plastic"); reveal_strlit("rock"); reveal_strlit("roofshingles");
    reveal_strlit("rubber"); reveal_strlit("salt"); reveal_strlit("sand"); reveal_strlit("sandstone"); reveal_strlit("slate");
    reveal_strlit("smoothplastic"); reveal_strlit("snow"); reveal_strlit("water"); reveal_strlit("wood"); reveal_strlit("woodplanks");
    let x = material_name_spec(b);
    assert(x.len() == "corrodedmetal"@.len());
    assert(x[0] == "corrodedmetal"@[0] && x[1] == "corrodedmetal"@[1] && x[2] == "corrodedmetal"@[2]);
    assert(x[3] == "corrodedmetal"@[3] && x[4] == "corrodedmetal"@[4] && x[5] == "corrodedmetal"@[5]);
}

proof fn lemma_only_1056_is_diamondplate(b: u32)
    requires
        material_name_spec(b) == "diamondplate"@,
    ensures
        b == 1056,
{
    reveal_strlit("air"); reveal_strlit("asphalt"); reveal_strlit("basalt"); reveal_strlit("brick"); reveal_strlit("cardboard");
    reveal_strlit("carpet"); reveal_strlit("ceramictiles"); reveal_strlit("clayrooftiles"); reveal_strlit("cobblestone"); reveal_strlit("concrete");
    reveal_strlit("corrodedmetal"); reveal_strlit("crackedlava"); reveal_strlit("diamondplate"); reveal_strlit("fabric"); reveal_strlit("foil");
    reveal_strlit("forcefield"); reveal_strlit("glacier"); reveal_strlit("glass"); reveal_strlit("granite"); reveal_strlit("grass");
    reveal_strlit("ground"); reveal_strlit("ice"); reveal_strlit("leafygrass"); reveal_strlit("leather"); reveal_strlit("limestone");
    reveal_strlit("marble"); reveal_strlit("metal"); reveal_strlit("mud"); reveal_strlit("neon"); reveal_strlit("pavement");
    reveal_strlit("pebble"); reveal_strlit("plaster"); reveal_strlit("plastic"); reveal_strlit("rock"); reveal_strlit("roofshingles");
    reveal_strlit("rubber"); reveal_strlit("salt"); reveal_strlit("sand"); reveal_strlit("sandstone"); reveal_strlit("slate");
    reveal_strlit("smoothplastic"); reveal_strlit("snow"); reveal_strlit("water"); reveal_strlit("wood"); reveal_strlit("woodplanks");
    let x = material_name_spec(b);
    assert(x.len() == "diamondplate"@.len());
    assert(x[0] == "diamondplate"@[0] && x[1] == "diamondplate"@[1] && x[2] == "diamondplate"@[2]);
    assert(x[3] == "diamondplate"@[3] && x[4] == "diamondplate"@[4] && x[5] == "diamondplate"@[5]);
}

proof fn lemma_only_1072_is_foil(b: u32)
    requires
        material_name_spec(b) == "foil"@,
    ensures
        b == 1072,
{
    reveal_strlit("air"); reveal_strlit("asphalt"); reveal_strlit("basalt"); reveal_strlit("brick"); reveal_strlit("cardboard");
    reveal_strlit("carpet"); reveal_strlit("ceramictiles"); reveal_strlit("clayrooftiles"); reveal_strlit("cobblestone"); reveal_strlit("concrete");
    reveal_strlit("corrodedmetal"); reveal_strlit("crackedlava"); reveal_strlit("diamondplate"); reveal_strlit("fabric"); reveal_strlit("foil");
    reveal_strlit("forcefield"); reveal_strlit("glacier"); reveal_strlit("glass"); reveal_strlit("granite"); reveal_strlit("grass");
    reveal_strlit("ground"); reveal_strlit("ice"); reveal_strlit("leafygrass"); reveal_strlit("leather"); reveal_strlit("limestone");
    reveal_strlit("marble"); reveal_strlit("metal"); reveal_strlit("mud"); reveal_strlit("neon"); reveal_strlit("pavement");
    reveal_strlit("pebble"); reveal_strlit("plaster"); reveal_strlit("plastic"); reveal_strlit("rock"); reveal_strlit("roofshingles");
    reveal_strlit("rubber"); reveal_strlit("salt"); reveal_strlit("sand"); reveal_strlit("sandstone"); reveal_strlit("slate");
    reveal_strlit("smoothplastic"); reveal_strlit("snow"); reveal_strlit("water"); reveal_strlit("wood"); reveal_strlit("woodplanks");
    let x = material_name_spec(b);
    assert(x.len() == "foil"@.len());
    assert(x[0] == "foil"@[0] && x[1] == "foil"@[1] && x[2] == "foil"@[2]);
    assert(x[3] == "foil"@[3] && x[4] == "foil"@[4] && x[5] == "foil"@[5]);
}

proof fn lemma_only_1088_is_metal(b: u32)
    requires
        material_name_spec(b) == "metal"@,
    ensures
        b == 1088,
{
    reveal_strlit("air"); reveal_strlit("asphalt"); reveal_strlit("basalt"); reveal_strlit("brick"); reveal_strlit("cardboard");
    reveal_strlit("carpet"); reveal_strlit("ceramictiles"); reveal_strlit("clayrooftiles"); reveal_strlit("cobblestone"); reveal_strlit("concrete");
    reveal_strlit("corrodedmetal"); reveal_strlit("crackedlava"); reveal_strlit("diamondplate"); reveal_strlit("fabric"); reveal_strlit("foil");
    reveal_strlit("forcefield"); reveal_strlit("glacier"); reveal_strlit("glass"); reveal_strlit("granite"); reveal_strlit("grass");
    reveal_strlit("ground"); reveal_strlit("ice"); reveal_strlit("leafygrass"); reveal_strlit("leather"); reveal_strlit("limestone");
    reveal_strlit("marble"); reveal_strlit("metal"); reveal_strlit("mud"); reveal_strlit("neon"); reveal_strlit("pavement");
    reveal_strlit("pebble"); reveal_strlit("plaster"); reveal_strlit("plastic"); reveal_strlit("rock"); reveal_strlit("roofshingles");
    reveal_strlit("rubber"); reveal_strlit("salt"); reveal_strlit("sand"); reveal_strlit("sandstone"); reveal_strlit("slate");
    reveal_strlit("smoothplastic"); reveal_strlit("snow"); reveal_strlit("water"); reveal_strlit("wood"); reveal_strlit("woodplanks");
    let x = material_name_spec(b);
    assert(x.len() == "metal"@.len());
    assert(x[0] == "metal"@[0] && x[1] == "metal"@[1] && x[2] == "metal"@[2]);
    assert(x[3] == "metal"@[3] && x[4] == "metal"@[4] && x[5] == "metal"@[5]);
}

proof fn lemma_only_1280_is_grass(b: u32)
    requires
        material_name_spec(b) == "grass"@,
    ensures
        b == 1280,
{
    reveal_strlit("air"); reveal_strlit("asphalt"); reveal_strlit("basalt"); reveal_strlit("brick"); reveal_strlit("cardboard");
    reveal_strlit("carpet"); reveal_strlit("ceramictiles"); reveal_strlit("clayrooftiles"); reveal_strlit("cobblestone"); reveal_strlit("concrete");
    reveal_strlit("corrodedmetal"); reveal_strlit("crackedlava"); reveal_strlit("diamondplate"); reveal_strlit("fabric"); reveal_strlit("foil");
    reveal_strlit("forcefield"); reveal_strlit("glacier"); reveal_strlit("glass"); reveal_strlit("granite"); reveal_strlit("grass");
    reveal_strlit("ground"); reveal_strlit("ice"); reveal_strlit("leafygrass"); reveal_strlit("leather"); reveal_strlit("limestone");
    reveal_strlit("marble"); reveal_strlit("metal"); reveal_strlit("mud"); reveal_strlit("neon"); reveal_strlit("pavement");
    reveal_strlit("pebble"); reveal_strlit("plaster"); reveal_strlit("plastic"); reveal_strlit("rock"); reveal_strlit("roofshingles");
    reveal_strlit("rubber"); reveal_strlit("salt"); reveal_strlit("sand"); reveal_strlit("sandstone"); reveal_strlit("slate");
    reveal_strlit("smoothplastic"); reveal_strlit("snow"); reveal_strlit("water"); reveal_strlit("wood"); reveal_strlit("woodplanks");
    let x = material_name_spec(b);
    assert(x.len() == "grass"@.len());
    assert(x[0] == "grass"@[0] && x[1] == "grass"@[1] && x[2] == "grass"@[2]);
    assert(x[3] == "grass"@[3] && x[4] == "grass"@[4] && x[5] == "grass"@[5]);
}

proof fn lemma_only_1284_is_leafygrass(b: u32)
    requires
        material_name_spec(b) == "leafygrass"@,
    ensures
        b == 1284,
{
    reveal_strlit("air"); reveal_strlit("asphalt"); reveal_strlit("basalt"); reveal_strlit("brick"); reveal_strlit("cardboard");
    reveal_strlit("carpet"); reveal_strlit("ceramictiles"); reveal_strlit("clayrooftiles"); reveal_strlit("cobblestone"); reveal_strlit("concrete");
    reveal_strlit("corrodedmetal"); reveal_strlit("crackedlava"); reveal_strlit("diamondplate"); reveal_strlit("fabric"); reveal_strlit("foil");
    reveal_strlit("forcefield"); reveal_strlit("glacier"); reveal_strlit("glass"); reveal_strlit("granite"); reveal_strlit("grass");
    reveal_strlit("ground"); reveal_strlit("ice"); reveal_strlit("leafygrass"); reveal_strlit("leather"); reveal_strlit("limestone");
    reveal_strlit("marble"); reveal_strlit("metal"); reveal_strlit("mud"); reveal_strlit("neon"); reveal_strlit("pavement");
    reveal_strlit("pebble"); reveal_strlit("plaster"); reveal_strlit("plastic"); reveal_strlit("rock"); reveal_strlit("roofshingles");
    reveal_strlit("rubber"); reveal_strlit("salt"); reveal_strlit("sand"); reveal_strlit("sandstone"); reveal_strlit("slate");
    reveal_strlit("smoothplastic"); reveal_strlit("snow"); reveal_strlit("water"); reveal_strlit("wood"); reveal_strlit("woodplanks");
    let x = material_name_spec(b);
    assert(x.len() == "leafygrass"@.len());
    assert(x[0] == "leafygrass"@[0] && x[1] == "leafygrass"@[1] && x[2] == "leafygrass"@[2]);
    assert(x[3] == "leafygrass"@[3] && x[4] == "leafygrass"@[4] && x[5] == "leafygrass"@[5]);
}

proof fn lemma_only_1296_is_sand(b: u32)
    requires
        material_name_spec(b) == "sand"@,
    ensures
        b == 1296,
{
    reveal_strlit("air"); reveal_strlit("asphalt"); reveal_strlit("basalt"); reveal_strlit("brick"); reveal_strlit("cardboard");
    reveal_strlit("carpet"); reveal_strlit("ceramictiles"); reveal_strlit("clayrooftiles"); reveal_strlit("cobblestone"); reveal_strlit("concrete");
    reveal_strlit("corrodedmetal"); reveal_strlit("crackedlava"); reveal_strlit("diamondplate"); reveal_strlit("fabric"); reveal_strlit("foil");
    reveal_strlit("forcefield"); reveal_strlit("glacier"); reveal_strlit("glass"); reveal_strlit("granite"); reveal_strlit("grass");
    reveal_strlit("ground"); reveal_strlit("ice"); reveal_strlit("leafygrass"); reveal_strlit("leather"); reveal_strlit("limestone");
    reveal_strlit("marble"); reveal_strlit("metal"); reveal_strlit("mud"); reveal_strlit("neon"); reveal_strlit("pavement");
    reveal_strlit("pebble"); reveal_strlit("plaster"); reveal_strlit("plastic"); reveal_strlit("rock"); reveal_strlit("roofshingles");
    reveal_strlit("rubber"); reveal_strlit("salt"); reveal_strlit("sand"); reveal_strlit("sandstone"); reveal_strlit("slate");
    reveal_strlit("smoothplastic"); reveal_strlit("snow"); reveal_strlit("water"); reveal_strlit("wood"); reveal_strlit("woodplanks");
    let x = material_name_spec(b);
    assert(x.len() == "sand"@.len());
    assert(x[0] == "sand"@[0] && x[1] == "sand"@[1] && x[2] == "sand"@[2]);
    assert(x[3] == "sand"@[3] && x[4] == "sand"@[4] && x[5] == "sand"@[5]);
}

proof fn lemma_only_1312_is_fabric(b: u32)
    requires
        material_name_spec(b) == "fabric"@,
    ensures
        b == 1312,
{
    reveal_strlit("air"); reveal_strlit("asphalt"); reveal_strlit("basalt"); reveal_strlit("brick"); reveal_strlit("cardboard");
    reveal_strlit("carpet"); reveal_strlit("ceramictiles"); reveal_strlit("clayrooftiles"); reveal_strlit("cobblestone"); reveal_strlit("concrete");
    reveal_strlit("corrodedmetal"); reveal_strlit("crackedlava"); reveal_strlit("diamondplate"); reveal_strlit("fabric"); reveal_strlit("foil");
    reveal_strlit("forcefield"); reveal_strlit("glacier"); reveal_strlit("glass"); reveal_strlit("granite"); reveal_strlit("grass");
    reveal_strlit("ground"); reveal_strlit("ice"); reveal_strlit("leafygrass"); reveal_strlit("leather"); reveal_strlit("limestone");
    reveal_strlit("marble"); reveal_strlit("metal"); reveal_strlit("mud"); reveal_strlit("neon"); reveal_strlit("pavement");
    reveal_strlit("pebble"); reveal_strlit("plaster"); reveal_strlit("plastic"); reveal_strlit("rock"); reveal_strlit("roofshingles");
    reveal_strlit("rubber"); reveal_strlit("salt"); reveal_strlit("sand"); reveal_strlit("sandstone"); reveal_strlit("slate");
    reveal_strlit("smoothplastic"); reveal_strlit("snow"); reveal_strlit("water"); reveal_strlit("wood"); reveal_strlit("woodplanks");
    let x = material_name_spec(b);
    assert(x.len() == "fabric"@.len());
    assert(x[0] == "fabric"@[0] && x[1] == "fabric"@[1] && x[2] == "fabric"@[2]);
    assert(x[3] == "fabric"@[3] && x[4] == "fabric"@[4] && x[5] == "fabric"@[5]);
}

proof fn lemma_only_1328_is_snow(b: u32)
    requires
        material_name_spec(b) == "snow"@,
    ensures
        b == 1328,
{
    reveal_strlit("air"); reveal_strlit("asphalt"); reveal_strlit("basalt"); reveal_strlit("brick"); reveal_strlit("cardboard");
    reveal_strlit("carpet"); reveal_strlit("ceramictiles"); reveal_strlit("clayrooftiles"); reveal_strlit("cobblestone"); reveal_strlit("concrete");
    reveal_strlit("corrodedmetal"); reveal_strlit("crackedlava"); reveal_strlit("diamondplate"); reveal_strlit("fabric"); reveal_strlit("foil");
    reveal_strlit("forcefield"); reveal_strlit("glacier"); reveal_strlit("glass"); reveal_strlit("granite"); reveal_strlit("grass");
    reveal_strlit("ground"); reveal_strlit("ice"); reveal_strlit("leafygrass"); reveal_strlit("leather"); reveal_strlit("limestone");
    reveal_strlit("marble"); reveal_strlit("metal"); reveal_strlit("mud"); reveal_strlit("neon"); reveal_strlit("pavement");
    reveal_strlit("pebble"); reveal_strlit("plaster"); reveal_strlit("plastic"); reveal_strlit("rock"); reveal_strlit("roofshingles");
    reveal_strlit("rubber"); reveal_strlit("salt"); reveal_strlit("sand"); reveal_strlit("sandstone"); reveal_strlit("slate");
    reveal_strlit("smoothplastic"); reveal_strlit("snow"); reveal_strlit("water"); reveal_strlit("wood"); reveal_strlit("woodplanks");
    let x = material_name_spec(b);
    assert(x.len() == "snow"@.len());
    assert(x[0] == "snow"@[0] && x[1] == "snow"@[1] && x[2] == "snow"@[2]);
    assert(x[3] == "snow"@[3] && x[4] == "snow"@[4] && x[5] == "snow"@[5]);
}

proof fn lemma_only_1344_is_mud(b: u32)
    requires
        material_name_spec(b) == "mud"@,
    ensures
        b == 1344,
{
    reveal_strlit("air"); reveal_strlit("asphalt"); reveal_strlit("basalt"); reveal_strlit("brick"); reveal_strlit("cardboard");
    reveal_strlit("carpet"); reveal_strlit("ceramictiles"); reveal_strlit("clayrooftiles"); reveal_strlit("cobblestone"); reveal_strlit("concrete");
    reveal_strlit("corrodedmetal"); reveal_strlit("crackedlava"); reveal_strlit("diamondplate"); reveal_strlit("fabric"); reveal_strlit("foil");
    reveal_strlit("forcefield"); reveal_strlit("glacier"); reveal_strlit("glass"); reveal_strlit("granite"); reveal_strlit("grass");
    reveal_strlit("ground"); reveal_strlit("ice"); reveal_strlit("leafygrass"); reveal_strlit("leather"); reveal_strlit("limestone");
    reveal_strlit("marble"); reveal_strlit("metal"); reveal_strlit("mud"); reveal_strlit("neon"); reveal_strlit("pavement");
    reveal_strlit("pebble"); reveal_strlit("plaster"); reveal_strlit("plastic"); reveal_strlit("rock"); reveal_strlit("roofshingles");
    reveal_strlit("rubber"); reveal_strlit("salt"); reveal_strlit("sand"); reveal_strlit("sandstone"); reveal_strlit("slate");
    reveal_strlit("smoothplastic"); reveal_strlit("snow"); reveal_strlit("water"); reveal_strlit("wood"); reveal_strlit("woodplanks");
    let x = material_name_spec(b);
    assert(x.len() == "mud"@.len());
    assert(x[0] == "mud"@[0] && x[1] == "mud"@[1] && x[2] == "mud"@[2]);
    assert(x[3] == "mud"@[3] && x[4] == "mud"@[4] && x[5] == "mud"@[5]);
}

proof fn lemma_only_1360_is_ground(b: u32)
    requires
        material_name_spec(b) == "ground"@,
    ensures
        b == 1360,
{
    reveal_strlit("air"); reveal_strlit("asphalt"); reveal_strlit("basalt"); reveal_strlit("brick"); reveal_strlit("cardboard");
    reveal_strlit("carpet"); reveal_strlit("ceramictiles"); reveal_strlit("clayrooftiles"); reveal_strlit("cobblestone"); reveal_strlit("concrete");
    reveal_strlit("corrodedmetal"); reveal_strlit("crackedlava"); reveal_strlit("diamondplate"); reveal_strlit("fabric"); reveal_strlit("foil");
    reveal_strlit("forcefield"); reveal_strlit("glacier"); reveal_strlit("glass"); reveal_strlit("granite"); reveal_strlit("grass");
    reveal_strlit("ground"); reveal_strlit("ice"); reveal_strlit("leafygrass"); reveal_strlit("leather"); reveal_strlit("limestone");
    reveal_strlit("marble"); reveal_strlit("metal"); reveal_strlit("mud"); reveal_strlit("neon"); reveal_strlit("pavement");
    reveal_strlit("pebble"); reveal_strlit("plaster"); reveal_strlit("plastic"); reveal_strlit("rock"); reveal_strlit("roofshingles");
    reveal_strlit("rubber"); reveal_strlit("salt"); reveal_strlit("sand"); reveal_strlit("sandstone"); reveal_strlit("slate");
    reveal_strlit("smoothplastic"); reveal_strlit("snow"); reveal_strlit("water"); reveal_strlit("wood"); reveal_strlit("woodplanks");
    let x = material_name_spec(b);
    assert(x.len() == "ground"@.len());
    assert(x[0] == "ground"@[0] && x[1] == "ground"@[1] && x[2] == "ground"@[2]);
    assert(x[3] == "ground"@[3] && x[4] == "ground"@[4] && x[5] == "ground"@[5]);
}

proof fn lemma_only_1376_is_asphalt(b: u32)
    requires
        material_name_spec(b) == "asphalt"@,
    ensures
        b == 1376,
{
    reveal_strlit("air"); reveal_strlit("asphalt"); reveal_strlit("basalt"); reveal_strlit("brick"); reveal_strlit("cardboard");
    reveal_strlit("carpet"); reveal_strlit("ceramictiles"); reveal_strlit("clayrooftiles"); reveal_strlit("cobblestone"); reveal_strlit("concrete");
    reveal_strlit("corrodedmetal"); reveal_strlit("crackedlava"); reveal_strlit("diamondplate"); reveal_strlit("fabric"); reveal_strlit("foil");
    reveal_strlit("forcefield"); reveal_strlit("glacier"); reveal_strlit("glass"); reveal_strlit("granite"); reveal_strlit("grass");
    reveal_strlit("ground"); reveal_strlit("ice"); reveal_strlit("leafygrass"); reveal_strlit("leather"); reveal_strlit("limestone");
    reveal_strlit("marble"); reveal_strlit("metal"); reveal_strlit("mud"); reveal_strlit("neon"); reveal_strlit("pavement");
    reveal_strlit("pebble"); reveal_strlit("plaster"); reveal_strlit("plastic"); reveal_strlit("rock"); reveal_strlit("roofshingles");
    reveal_strlit("rubber"); reveal_strlit("salt"); reveal_strlit("sand"); reveal_strlit("sandstone"); reveal_strlit("slate");
    reveal_strlit("smoothplastic"); reveal_strlit("snow"); reveal_strlit("water"); reveal_strlit("wood"); reveal_strlit("woodplanks");
    let x = material_name_spec(b);
    assert(x.len() == "asphalt"@.len());
    assert(x[0] == "asphalt"@[0] && x[1] == "asphalt"@[1] && x[2] == "asphalt"@[2]);
    assert(x[3] == "asphalt"@[3] && x[4] == "asphalt"@[4] && x[5] == "asphalt"@[5]);
}

proof fn lemma_only_1392_is_salt(b: u32)
    requires
        material_name_spec(b) == "salt"@,
    ensures
        b == 1392,
{
    reveal_strlit("air"); reveal_strlit("asphalt"); reveal_strlit("basalt"); reveal_strlit("brick"); reveal_strlit("cardboard");
    reveal_strlit("carpet"); reveal_strlit("ceramictiles"); reveal_strlit("clayrooftiles"); reveal_strlit("cobblestone"); reveal_strlit("concrete");
    reveal_strlit("corrodedmetal"); reveal_strlit("crackedlava"); reveal_strlit("diamondplate"); reveal_strlit("fabric"); reveal_strlit("foil");
    reveal_strlit("forcefield"); reveal_strlit("glacier"); reveal_strlit("glass"); reveal_strlit("granite"); reveal_strlit("grass");
    reveal_strlit("ground"); reveal_strlit("ice"); reveal_strlit("leafygrass"); reveal_strlit("leather"); reveal_strlit("limestone");
    reveal_strlit("marble"); reveal_strlit("metal"); reveal_strlit("mud"); reveal_strlit("neon"); reveal_strlit("pavement");
    reveal_strlit("pebble"); reveal_strlit("plaster"); reveal_strlit("plastic"); reveal_strlit("rock"); reveal_strlit("roofshingles");
    reveal_strlit("rubber"); reveal_strlit("salt"); reveal_strlit("sand"); reveal_strlit("sandstone"); reveal_strlit("slate");
    reveal_strlit("smoothplastic"); reveal_strlit("snow"); reveal_strlit("water"); reveal_strlit("wood"); reveal_strlit("woodplanks");
    let x = material_name_spec(b);
    assert(x.len() == "salt"@.len());
    assert(x[0] == "salt"@[0] && x[1] == "salt"@[1] && x[2] == "salt"@[2]);
    assert(x[3] == "salt"@[3] && x[4] == "salt"@[4] && x[5] == "salt"@[5]);
}

proof fn lemma_only_1536_is_ice(b: u32)
    requires
        material_name_spec(b) == "ice"@,
    ensures
        b == 1536,
{
    reveal_strlit("air"); reveal_strlit("asphalt"); reveal_strlit("basalt"); reveal_strlit("brick"); reveal_strlit("cardboard");
    reveal_strlit("carpet"); reveal_strlit("ceramictiles"); reveal_strlit("clayrooftiles"); reveal_strlit("cobblestone"); reveal_strlit("concrete");
    reveal_strlit("corrodedmetal"); reveal_strlit("crackedlava"); reveal_strlit("diamondplate"); reveal_strlit("fabric"); reveal_strlit("foil");
    reveal_strlit("forcefield"); reveal_strlit("glacier"); reveal_strlit("glass"); reveal_strlit("granite"); reveal_strlit("grass");
    reveal_strlit("ground"); reveal_strlit("ice"); reveal_strlit("leafygrass"); reveal_strlit("leather"); reveal_strlit("limestone");
    reveal_strlit("marble"); reveal_strlit("metal"); reveal_strlit("mud"); reveal_strlit("neon"); reveal_strlit("pavement");
    reveal_strlit("pebble"); reveal_strlit("plaster"); reveal_strlit("plastic"); reveal_strlit("rock"); reveal_strlit("roofshingles");
    reveal_strlit("rubber"); reveal_strlit("salt"); reveal_strlit("sand"); reveal_strlit("sandstone"); reveal_strlit("slate");
    reveal_strlit("smoothplastic"); reveal_strlit("snow"); reveal_strlit("water"); reveal_strlit("wood"); reveal_strlit("woodplanks");
    let x = material_name_spec(b);
    assert(x.len() == "ice"@.len());
    assert(x[0] == "ice"@[0] && x[1] == "ice"@[1] && x[2] == "ice"@[2]);
    assert(x[3] == "ice"@[3] && x[4] == "ice"@[4] && x[5] == "ice"@[5]);
}

proof fn lemma_only_1552_is_glacier(b: u32)
    requires
        material_name_spec(b) == "glacier"@,
    ensures
        b == 1552,
{
    reveal_strlit("air"); reveal_strlit("asphalt"); reveal_strlit("basalt"); reveal_strlit("brick"); reveal_strlit("cardboard");
    reveal_strlit("carpet"); reveal_strlit("ceramictiles"); reveal_strlit("clayrooftiles"); reveal_strlit("cobblestone"); reveal_strlit("concrete");
    reveal_strlit("corrodedmetal"); reveal_strlit("crackedlava"); reveal_strlit("diamondplate"); reveal_strlit("fabric"); reveal_strlit("foil");
    reveal_strlit("forcefield"); reveal_strlit("glacier"); reveal_strlit("glass"); reveal_strlit("granite"); reveal_strlit("grass");
    reveal_strlit("ground"); reveal_strlit("ice"); reveal_strlit("leafygrass"); reveal_strlit("leather"); reveal_strlit("limestone");
    reveal_strlit("marble"); reveal_strlit("metal"); reveal_strlit("mud"); reveal_strlit("neon"); reveal_strlit("pavement");
    reveal_strlit("pebble"); reveal_strlit("plaster"); reveal_strlit("plastic"); reveal_strlit("rock"); reveal_strlit("roofshingles");
    reveal_strlit("rubber"); reveal_strlit("salt"); reveal_strlit("sand"); reveal_strlit("sandstone"); reveal_strlit("slate");
    reveal_strlit("smoothplastic"); reveal_strlit("snow"); reveal_strlit("water"); reveal_strlit("wood"); reveal_strlit("woodplanks");
    let x = material_name_spec(b);
    assert(x.len() == "glacier"@.len());
    assert(x[0] == "glacier"@[0] && x[1] == "glacier"@[1] && x[2] == "glacier"@[2]);
    assert(x[3] == "glacier"@[3] && x[4] == "glacier"@[4] && x[5] == "glacier"@[5]);
}

proof fn lemma_only_1568_is_glass(b: u32)
    requires
        material_name_spec(b) == "glass"@,
    ensures
        b == 1568,
{
    reveal_strlit("air"); reveal_strlit("asphalt"); reveal_strlit("basalt"); reveal_strlit("brick"); reveal_strlit("cardboard");
    reveal_strlit("carpet"); reveal_strlit("ceramictiles"); reveal_strlit("clayrooftiles"); reveal_strlit("cobblestone"); reveal_strlit("concrete");
    reveal_strlit("corrodedmetal"); reveal_strlit("crackedlava"); reveal_strlit("diamondplate"); reveal_strlit("fabric"); reveal_strlit("foil");
    reveal_strlit("forcefield"); reveal_strlit("glacier"); reveal_strlit("glass"); reveal_strlit("granite"); reveal_strlit("grass");
    reveal_strlit("ground"); reveal_strlit("ice"); reveal_strlit("leafygrass"); reveal_strlit("leather"); reveal_strlit("limestone");
    reveal_strlit("marble"); reveal_strlit("metal"); reveal_strlit("mud"); reveal_strlit("neon"); reveal_strlit("pavement");
    reveal_strlit("pebble"); reveal_strlit("plaster"); reveal_strlit("plastic"); reveal_strlit("rock"); reveal_strlit("roofshingles");
    reveal_strlit("rubber"); reveal_strlit("salt"); reveal_strlit("sand"); reveal_strlit("sandstone"); reveal_strlit("slate");
    reveal_strlit("smoothplastic"); reveal_strlit("snow"); reveal_strlit("water"); reveal_strlit("wood"); reveal_strlit("woodplanks");
    let x = material_name_spec(b);
    assert(x.len() == "glass"@.len());
    assert(x[0] == "glass"@[0] && x[1] == "glass"@[1] && x[2] == "glass"@[2]);
    assert(x[3] == "glass"@[3] && x[4] == "glass"@[4] && x[5] == "glass"@[5]);
}

proof fn lemma_only_1584_is_forcefield(b: u32)
    requires
        material_name_spec(b) == "forcefield"@,
    ensures
        b == 1584,
{
    reveal_strlit("air"); reveal_strlit("asphalt"); reveal_strlit("basalt"); reveal_strlit("brick"); reveal_strlit("cardboard");
    reveal_strlit("carpet"); reveal_strlit("ceramictiles"); reveal_strlit("clayrooftiles"); reveal_strlit("cobblestone"); reveal_strlit("concrete");
    reveal_strlit("corrodedmetal"); reveal_strlit("crackedlava"); reveal_strlit("diamondplate"); reveal_strlit("fabric"); reveal_strlit("foil");
    reveal_strlit("forcefield"); reveal_strlit("glacier"); reveal_strlit("glass"); reveal_strlit("granite"); reveal_strlit("grass");
    reveal_strlit("ground"); reveal_strlit("ice"); reveal_strlit("leafygrass"); reveal_strlit("leather"); reveal_strlit("limestone");
    reveal_strlit("marble"); reveal_strlit("metal"); reveal_strlit("mud"); reveal_strlit("neon"); reveal_strlit("pavement");
    reveal_strlit("pebble"); reveal_strlit("plaster"); reveal_strlit("plastic"); reveal_strlit("rock"); reveal_strlit("roofshingles");
    reveal_strlit("rubber"); reveal_strlit("salt"); reveal_strlit("sand"); reveal_strlit("sandstone"); reveal_strlit("slate");
    reveal_strlit("smoothplastic"); reveal_strlit("snow"); reveal_strlit("water"); reveal_strlit("wood"); reveal_strlit("woodplanks");
    let x = material_name_spec(b);
    assert(x.len() == "forcefield"@.len());
    assert(x[0] == "forcefield"@[0] && x[1] == "forcefield"@[1] && x[2] == "forcefield"@[2]);
    assert(x[3] == "forcefield"@[3] && x[4] == "forcefield"@[4] && x[5] == "forcefield"@[5]);
}

proof fn lemma_only_1792_is_air(b: u32)
    requires
        material_name_spec(b) == "air"@,
    ensures
        b == 1792,
{
    reveal_strlit("air"); reveal_strlit("asphalt"); reveal_strlit("basalt"); reveal_strlit("brick"); reveal_strlit("cardboard");
    reveal_strlit("carpet"); reveal_strlit("ceramictiles"); reveal_strlit("clayrooftiles"); reveal_strlit("cobblestone"); reveal_strlit("concrete");
    reveal_strlit("corrodedmetal"); reveal_strlit("crackedlava"); reveal_strlit("diamondplate"); reveal_strlit("fabric"); reveal_strlit("foil");
    reveal_strlit("forcefield"); reveal_strlit("glacier"); reveal_strlit("glass"); reveal_strlit("granite"); reveal_strlit("grass");
    reveal_strlit("ground"); reveal_strlit("ice"); reveal_strlit("leafygrass"); reveal_strlit("leather"); reveal_strlit("limestone");
    reveal_strlit("marble"); reveal_strlit("metal"); reveal_strlit("mud"); reveal_strlit("neon"); reveal_strlit("pavement");
    reveal_strlit("pebble"); reveal_strlit("plaster"); reveal_strlit("plastic"); reveal_strlit("rock"); reveal_strlit("roofshingles");
    reveal_strlit("rubber"); reveal_strlit("salt"); reveal_strlit("sand"); reveal_strlit("sandstone"); reveal_strlit("slate");
    reveal_strlit("smoothplastic"); reveal_strlit("snow"); reveal_strlit("water"); reveal_strlit("wood"); reveal_strlit("woodplanks");
    let x = material_name_spec(b);
    assert(x.len() == "air"@.len());
    assert(x[0] == "air"@[0] && x[1] == "air"@[1] && x[2] == "air"@[2]);
    assert(x[3] == "air"@[3] && x[4] == "air"@[4] && x[5] == "air"@[5]);
}

proof fn lemma_only_2048_is_water(b: u32)
    requires
        material_name_spec(b) == "water"@,
    ensures
        b == 2048,
{
    reveal_strlit("air"); reveal_strlit("asphalt"); reveal_strlit("basalt"); reveal_strlit("brick"); reveal_strlit("cardboard");
    reveal_strlit("carpet"); reveal_strlit("ceramictiles"); reveal_strlit("clayrooftiles"); reveal_strlit("cobblestone"); reveal_strlit("concrete");
    reveal_strlit("corrodedmetal"); reveal_strlit("crackedlava"); reveal_strlit("diamondplate"); reveal_strlit("fabric"); reveal_strlit("foil");
    reveal_strlit("forcefield"); reveal_strlit("glacier"); reveal_strlit("glass"); reveal_strlit("granite"); reveal_strlit("grass");
    reveal_strlit("ground"); reveal_strlit("ice"); reveal_strlit("leafygrass"); reveal_strlit("leather"); reveal_strlit("limestone");
    reveal_strlit("marble"); reveal_strlit("metal"); reveal_strlit("mud"); reveal_strlit("neon"); reveal_strlit("pavement");
    reveal_strlit("pebble"); reveal_strlit("plaster"); reveal_strlit("plastic"); reveal_strlit("rock"); reveal_strlit("roofshingles");
    reveal_strlit("rubber"); reveal_strlit("salt"); reveal_strlit("sand"); reveal_strlit("sandstone"); reveal_strlit("slate");
    reveal_strlit("smoothplastic"); reveal_strlit("snow"); reveal_strlit("water"); reveal_strlit("wood"); reveal_strlit("woodplanks");
    let x = material_name_spec(b);
    assert(x.len() == "water"@.len());
    assert(x[0] == "water"@[0] && x[1] == "water"@[1] && x[2] == "water"@[2]);
    assert(x[3] == "water"@[3] && x[4] == "water"@[4] && x[5] == "water"@[5]);
}

proof fn lemma_only_2304_is_cardboard(b: u32)
    requires
        material_name_spec(b) == "cardboard"@,
    ensures
        b == 2304,
{
    reveal_strlit("air"); reveal_strlit("asphalt"); reveal_strlit("basalt"); reveal_strlit("brick"); reveal_strlit("cardboard");
    reveal_strlit("carpet"); reveal_strlit("ceramictiles"); reveal_strlit("clayrooftiles"); reveal_strlit("cobblestone"); reveal_strlit("concrete");
    reveal_strlit("corrodedmetal"); reveal_strlit("crackedlava"); reveal_strlit("diamondplate"); reveal_strlit("fabric"); reveal_strlit("foil");
    reveal_strlit("forcefield"); reveal_strlit("glacier"); reveal_strlit("glass"); reveal_strlit("granite"); reveal_strlit("grass");
    reveal_strlit("ground"); reveal_strlit("ice"); reveal_strlit("leafygrass"); reveal_strlit("leather"); reveal_strlit("limestone");
    reveal_strlit("marble"); reveal_strlit("metal"); reveal_strlit("mud"); reveal_strlit("neon"); reveal_strlit("pavement");
    reveal_strlit("pebble"); reveal_strlit("plaster"); reveal_strlit("plastic"); reveal_strlit("rock"); reveal_strlit("roofshingles");
    reveal_strlit("rubber"); reveal_strlit("salt"); reveal_strlit("sand"); reveal_strlit("sandstone"); reveal_strlit("slate");
    reveal_strlit("smoothplastic"); reveal_strlit("snow"); reveal_strlit("water"); reveal_strlit("wood"); reveal_strlit("woodplanks");
    let x = material_name_spec(b);
    assert(x.len() == "cardboard"@.len());
    assert(x[0] == "cardboard"@[0] && x[1] == "cardboard"@[1] && x[2] == "cardboard"@[2]);
    assert(x[3] == "cardboard"@[3] && x[4] == "cardboard"@[4] && x[5] == "cardboard"@[5]);
}

proof fn lemma_only_2305_is_carpet(b: u32)
    requires
        material_name_spec(b) == "carpet"@,
    ensures
        b == 2305,
{
    reveal_strlit("air"); reveal_strlit("asphalt"); reveal_strlit("basalt"); reveal_strlit("brick"); reveal_strlit("cardboard");
    reveal_strlit("carpet"); reveal_strlit("ceramictiles"); reveal_strlit("clayrooftiles"); reveal_strlit("cobblestone"); reveal_strlit("concrete");
    reveal_strlit("corrodedmetal"); reveal_strlit("crackedlava"); reveal_strlit("diamondplate"); reveal_strlit("fabric"); reveal_strlit("foil");
    reveal_strlit("forcefield"); reveal_strlit("glacier"); reveal_strlit("glass"); reveal_strlit("granite"); reveal_strlit("grass");
    reveal_strlit("ground"); reveal_strlit("ice"); reveal_strlit("leafygrass"); reveal_strlit("leather"); reveal_strlit("limestone");
    reveal_strlit("marble"); reveal_strlit("metal"); reveal_strlit("mud"); reveal_strlit("neon"); reveal_strlit("pavement");
    reveal_strlit("pebble"); reveal_strlit("plaster"); reveal_strlit("plastic"); reveal_strlit("rock"); reveal_strlit("roofshingles");
    reveal_strlit("rubber"); reveal_strlit("salt"); reveal_strlit("sand"); reveal_strlit("sandstone"); reveal_strlit("slate");
    reveal_strlit("smoothplastic"); reveal_strlit("snow"); reveal_strlit("water"); reveal_strlit("wood"); reveal_strlit("woodplanks");
    let x = material_name_spec(b);
    assert(x.len() == "carpet"@.len());
    assert(x[0] == "carpet"@[0] && x[1] == "carpet"@[1] && x[2] == "carpet"@[2]);
    assert(x[3] == "carpet"@[3] && x[4] == "carpet"@[4] && x[5] == "carpet"@[5]);
}

proof fn lemma_only_2306_is_ceramictiles(b: u32)
    requires
        material_name_spec(b) == "ceramictiles"@,
    ensures
        b == 2306,
{
    reveal_strlit("air"); reveal_strlit("asphalt"); reveal_strlit("basalt"); reveal_strlit("brick"); reveal_strlit("cardboard");
    reveal_strlit("carpet"); reveal_strlit("ceramictiles"); reveal_strlit("clayrooftiles"); reveal_strlit("cobblestone"); reveal_strlit("concrete");
    reveal_strlit("corrodedmetal"); reveal_strlit("crackedlava"); reveal_strlit("diamondplate"); reveal_strlit("fabric"); reveal_strlit("foil");
    reveal_strlit("forcefield"); reveal_strlit("glacier"); reveal_strlit("glass"); reveal_strlit("granite"); reveal_strlit("grass");
    reveal_strlit("ground"); reveal_strlit("ice"); reveal_strlit("leafygrass"); reveal_strlit("leather"); reveal_strlit("limestone");
    reveal_strlit("marble"); reveal_strlit("metal"); reveal_strlit("mud"); reveal_strlit("neon"); reveal_strlit("pavement");
    reveal_strlit("pebble"); reveal_strlit("plaster"); reveal_strlit("plastic"); reveal_strlit("rock"); reveal_strlit("roofshingles");
    reveal_strlit("rubber"); reveal_strlit("salt"); reveal_strlit("sand"); reveal_strlit("sandstone"); reveal_strlit("slate");
    reveal_strlit("smoothplastic"); reveal_strlit("snow"); reveal_strlit("water"); reveal_strlit("wood"); reveal_strlit("woodplanks");
    let x = material_name_spec(b);
    assert(x.len() == "ceramictiles"@.len());
    assert(x[0] == "ceramictiles"@[0] && x[1] == "ceramictiles"@[1] && x[2] == "ceramictiles"@[2]);
    assert(x[3] == "ceramictiles"@[3] && x[4] == "ceramictiles"@[4] && x[5] == "ceramictiles"@[5]);
}

proof fn lemma_only_2307_is_clayrooftiles(b: u32)
    requires
        material_name_spec(b) == "clayrooftiles"@,
    ensures
        b == 2307,
{
    reveal_strlit("air"); reveal_strlit("asphalt"); reveal_strlit("basalt"); reveal_strlit("brick"); reveal_strlit("cardboard");
    reveal_strlit("carpet"); reveal_strlit("ceramictiles"); reveal_strlit("clayrooftiles"); reveal_strlit("cobblestone"); reveal_strlit("concrete");
    reveal_strlit("corrodedmetal"); reveal_strlit("crackedlava"); reveal_strlit("diamondplate"); reveal_strlit("fabric"); reveal_strlit("foil");
    reveal_strlit("forcefield"); reveal_strlit("glacier"); reveal_strlit("glass"); reveal_strlit("granite"); reveal_strlit("grass");
    reveal_strlit("ground"); reveal_strlit("ice"); reveal_strlit("leafygrass"); reveal_strlit("leather"); reveal_strlit("limestone");
    reveal_strlit("marble"); reveal_strlit("metal"); reveal_strlit("mud"); reveal_strlit("neon"); reveal_strlit("pavement");
    reveal_strlit("pebble"); reveal_strlit("plaster"); reveal_strlit("plastic"); reveal_strlit("rock"); reveal_strlit("roofshingles");
    reveal_strlit("rubber"); reveal_strlit("salt"); reveal_strlit("sand"); reveal_strlit("sandstone"); reveal_strlit("slate");
    reveal_strlit("smoothplastic"); reveal_strlit("snow"); reveal_strlit("water"); reveal_strlit("wood"); reveal_strlit("woodplanks");
    let x = material_name_spec(b);
    assert(x.len() == "clayrooftiles"@.len());
    assert(x[0] == "clayrooftiles"@[0] && x[1] == "clayrooftiles"@[1] && x[2] == "clayrooftiles"@[2]);
    assert(x[3] == "clayrooftiles"@[3] && x[4] == "clayrooftiles"@[4] && x[5] == "clayrooftiles"@[5]);
}

proof fn lemma_only_2308_is_roofshingles(b: u32)
    requires
        material_name_spec(b) == "roofshingles"@,
    ensures
        b == 2308,
{
    reveal_strlit("air"); reveal_strlit("asphalt"); reveal_strlit("basalt"); reveal_strlit("brick"); reveal_strlit("cardboard");
    reveal_strlit("carpet"); reveal_strlit("ceramictiles"); reveal_strlit("clayrooftiles"); reveal_strlit("cobblestone"); reveal_strlit("concrete");
    reveal_strlit("corrodedmetal"); reveal_strlit("crackedlava"); reveal_strlit("diamondplate"); reveal_strlit("fabric"); reveal_strlit("foil");
    reveal_strlit("forcefield"); reveal_strlit("glacier"); reveal_strlit("glass"); reveal_strlit("granite"); reveal_strlit("grass");
    reveal_strlit("ground"); reveal_strlit("ice"); reveal_strlit("leafygrass"); reveal_strlit("leather"); reveal_strlit("limestone");
    reveal_strlit("marble"); reveal_strlit("metal"); reveal_strlit("mud"); reveal_strlit("neon"); reveal_strlit("pavement");
    reveal_strlit("pebble"); reveal_strlit("plaster"); reveal_strlit("plastic"); reveal_strlit("rock"); reveal_strlit("roofshingles");
    reveal_strlit("rubber"); reveal_strlit("salt"); reveal_strlit("sand"); reveal_strlit("sandstone"); reveal_strlit("slate");
    reveal_strlit("smoothplastic"); reveal_strlit("snow"); reveal_strlit("water"); reveal_strlit("wood"); reveal_strlit("woodplanks");
    let x = material_name_spec(b);
    assert(x.len() == "roofshingles"@.len());
    assert(x[0] == "roofshingles"@[0] && x[1] == "roofshingles"@[1] && x[2] == "roofshingles"@[2]);
    assert(x[3] == "roofshingles"@[3] && x[4] == "roofshingles"@[4] && x[5] == "roofshingles"@[5]);
}

proof fn lemma_only_2309_is_leather(b: u32)
    requires
        material_name_spec(b) == "leather"@,
    ensures
        b == 2309,
{
    reveal_strlit("air"); reveal_strlit("asphalt"); reveal_strlit("basalt"); reveal_strlit("brick"); reveal_strlit("cardboard");
    reveal_strlit("carpet"); reveal_strlit("ceramictiles"); reveal_strlit("clayrooftiles"); reveal_strlit("cobblestone"); reveal_strlit("concrete");
    reveal_strlit("corrodedmetal"); reveal_strlit("crackedlava"); reveal_strlit("diamondplate"); reveal_strlit("fabric"); reveal_strlit("foil");
    reveal_strlit("forcefield"); reveal_strlit("glacier"); reveal_strlit("glass"); reveal_strlit("granite"); reveal_strlit("grass");
    reveal_strlit("ground"); reveal_strlit("ice"); reveal_strlit("leafygrass"); reveal_strlit("leather"); reveal_strlit("limestone");
    reveal_strlit("marble"); reveal_strlit("metal"); reveal_strlit("mud"); reveal_strlit("neon"); reveal_strlit("pavement");
    reveal_strlit("pebble"); reveal_strlit("plaster"); reveal_strlit("plastic"); reveal_strlit("rock"); reveal_strlit("roofshingles");
    reveal_strlit("rubber"); reveal_strlit("salt"); reveal_strlit("sand"); reveal_strlit("sandstone"); reveal_strlit("slate");
    reveal_strlit("smoothplastic"); reveal_strlit("snow"); reveal_strlit("water"); reveal_strlit("wood"); reveal_strlit("woodplanks");
    let x = material_name_spec(b);
    assert(x.len() == "leather"@.len());
    assert(x[0] == "leather"@[0] && x[1] == "leather"@[1] && x[2] == "leather"@[2]);
    assert(x[3] == "leather"@[3] && x[4] == "leather"@[4] && x[5] == "leather"@[5]);
}

proof fn lemma_only_2310_is_plaster(b: u32)
    requires
        material_name_spec(b) == "plaster"@,
    ensures
        b == 2310,
{
    reveal_strlit("air"); reveal_strlit("asphalt"); reveal_strlit("basalt"); reveal_strlit("brick"); reveal_strlit("cardboard");
    reveal_strlit("carpet"); reveal_strlit("ceramictiles"); reveal_strlit("clayrooftiles"); reveal_strlit("cobblestone"); reveal_strlit("concrete");
    reveal_strlit("corrodedmetal"); reveal_strlit("crackedlava"); reveal_strlit("diamondplate"); reveal_strlit("fabric"); reveal_strlit("foil");
    reveal_strlit("forcefield"); reveal_strlit("glacier"); reveal_strlit("glass"); reveal_strlit("granite"); reveal_strlit("grass");
    reveal_strlit("ground"); reveal_strlit("ice"); reveal_strlit("leafygrass"); reveal_strlit("leather"); reveal_strlit("limestone");
    reveal_strlit("marble"); reveal_strlit("metal"); reveal_strlit("mud"); reveal_strlit("neon"); reveal_strlit("pavement");
    reveal_strlit("pebble"); reveal_strlit("plaster"); reveal_strlit("plastic"); reveal_strlit("rock"); reveal_strlit("roofshingles");
    reveal_strlit("rubber"); reveal_strlit("salt"); reveal_strlit("sand"); reveal_strlit("sandstone"); reveal_strlit("slate");
    reveal_strlit("smoothplastic"); reveal_strlit("snow"); reveal_strlit("water"); reveal_strlit("wood"); reveal_strlit("woodplanks");
    let x = material_name_spec(b);
    assert(x.len() == "plaster"@.len());
    assert(x[0] == "plaster"@[0] && x[1] == "plaster"@[1] && x[2] == "plaster"@[2]);
    assert(x[3] == "plaster"@[3] && x[4] == "plaster"@[4] && x[5] == "plaster"@[5]);
}

proof fn lemma_only_2311_is_rubber(b: u32)
    requires
        material_name_spec(b) == "rubber"@,
    ensures
        b == 2311,
{
    reveal_strlit("air"); reveal_strlit("asphalt"); reveal_strlit("basalt"); reveal_strlit("brick"); reveal_strlit("cardboard");
    reveal_strlit("carpet"); reveal_strlit("ceramictiles"); reveal_strlit("clayrooftiles"); reveal_strlit("cobblestone"); reveal_strlit("concrete");
    reveal_strlit("corrodedmetal"); reveal_strlit("crackedlava"); reveal_strlit("diamondplate"); reveal_strlit("fabric"); reveal_strlit("foil");
    reveal_strlit("forcefield"); reveal_strlit("glacier"); reveal_strlit("glass"); reveal_strlit("granite"); reveal_strlit("grass");
    reveal_strlit("ground"); reveal_strlit("ice"); reveal_strlit("leafygrass"); reveal_strlit("leather"); reveal_strlit("limestone");
    reveal_strlit("marble"); reveal_strlit("metal"); reveal_strlit("mud"); reveal_strlit("neon"); reveal_strlit("pavement");
    reveal_strlit("pebble"); reveal_strlit("plaster"); reveal_strlit("plastic"); reveal_strlit("rock"); reveal_strlit("roofshingles");
    reveal_strlit("rubber"); reveal_strlit("salt"); reveal_strlit("sand"); reveal_strlit("sandstone"); reveal_strlit("slate");
    reveal_strlit("smoothplastic"); reveal_strlit("snow"); reveal_strlit("water"); reveal_strlit("wood"); reveal_strlit("woodplanks");
    let x = material_name_spec(b);
    assert(x.len() == "rubber"@.len());
    assert(x[0] == "rubber"@[0] && x[1] == "rubber"@[1] && x[2] == "rubber"@[2]);
    assert(x[3] == "rubber"@[3] && x[4] == "rubber"@[4] && x[5] == "rubber"@[5]);
}

/// The lower-case name of a Roblox `Material` enum value; unknown values
/// are plastic.
pub fn material_name(value: u32) -> (r: String)
    ensures
        r@ == material_name_spec(value),
{
    let name = match value {
        256 => "plastic",
        272 => "smoothplastic",
        288 => "neon",
        512 => "wood",
        528 => "woodplanks",
        784 => "marble",
        788 => "basalt",
        800 => "slate",
        804 => "crackedlava",
        816 => "concrete",
        820 => "limestone",
        832 => "granite",
        836 => "pavement",
        848 => "brick",
        864 => "pebble",
        880 => "cobblestone",
        896 => "rock",
        912 => "sandstone",
        1040 => "corrodedmetal",
        1056 => "diamondplate",
        1072 => "foil",
        1088 => "metal",
        1280 => "grass",
        1284 => "leafygrass",
        1296 => "sand",
        1312 => "fabric",
        1328 => "snow",
        1344 => "mud",
        1360 => "ground",
        1376 => "asphalt",
        1392 => "salt",
        1536 => "ice",
        1552 => "glacier",
        1568 => "glass",
        1584 => "forcefield",
        1792 => "air",
        2048 => "water",
        2304 => "cardboard",
        2305 => "carpet",
        2306 => "ceramictiles",
        2307 => "clayrooftiles",
        2308 => "roofshingles",
        2309 => "leather",
        2310 => "plaster",
        2311 => "rubber",
        _ => "plastic",
    };
    name.to_owned()
}

/// A property value as the material and shape logic reads it: the enum and
/// integer kinds, and everything else.
#[derive(Clone, Copy, Debug, PartialEq, Eq)]
pub enum PropertyValue {
    Enum(u32),
    EnumItem(u32),
    Int32(i32),
    Int64(i64),
    Other,
}

/// The enum value a property holds: enums and enum items as they are,
/// non-negative integers cast to `u32` (an `i64` keeps its low 32 bits),
/// nothing otherwise.
pub open spec fn enum_value_spec(value: PropertyValue) -> Option<u32> {
    match value {
        PropertyValue::Enum(v) => Some(v),
        PropertyValue::EnumItem(v) => Some(v),
        PropertyValue::Int32(v) => if v >= 0 { Some(v as u32) } else { None },
        PropertyValue::Int64(v) => if v >= 0 { Some(v as u32) } else { None },
        PropertyValue::Other => None,
    }
}

/// The enum value a property holds, if any.
pub fn enum_value(value: &PropertyValue) -> (r: Option<u32>)
    ensures
        r == enum_value_spec(*value),
{
    match value {
        PropertyValue::Enum(v) => Some(*v),
        PropertyValue::EnumItem(v) => Some(*v),
        PropertyValue::Int32(v) => if *v >= 0 { Some(*v as u32) } else { None },
        PropertyValue::Int64(v) => if *v >= 0 { Some(*v as u32) } else { None },
        PropertyValue::Other => None,
    }
}

/// Whether two strings have the same characters.
pub fn str_equal(a: &str, b: &str) -> (r: bool)
    ensures
        r == (a@ == b@),
{
    let n = a.unicode_len();
    if n != b.unicode_len() {
        return false;
    }
    let mut i: usize = 0;
    while i < n
        invariant
            n == a@.len(),
            n == b@.len(),
            0 <= i <= n,
            a@.take(i as int) == b@.take(i as int),
        decreases n - i,
    {
        if a.get_char(i) != b.get_char(i) {
            return false;
        }
        assert(a@.take(i + 1) =~= a@.take(i as int).push(a@[i as int]));
        assert(b@.take(i + 1) =~= b@.take(i as int).push(b@[i as int]));
        i = i + 1;
    }
    assert(a@.take(n as int) =~= a@);
    assert(b@.take(n as int) =~= b@);
    true
}

/// An instance of class `class_name` is of class `class`.
pub fn is_class(class_name: &str, class: &str) -> (r: bool)
    ensures
        r == (class_name@ == class@),
{
    str_equal(class_name, class)
}

/// The classes whose instances carry geometry: parts of every primitive
/// shape, mesh parts and unions.
pub open spec fn is_geometry_spec(class: Seq<char>) -> bool {
    ||| class == "Part"@
    ||| class == "WedgePart"@
    ||| class == "CornerWedgePart"@
    ||| class == "MeshPart"@
    ||| class == "UnionOperation"@
}

/// Whether an instance of the given class carries geometry.
pub fn is_geometry(class: &str) -> (r: bool)
    ensures
        r == is_geometry_spec(class@),
{
    str_equal(class, "Part") || str_equal(class, "WedgePart") || str_equal(class, "CornerWedgePart")
        || str_equal(class, "MeshPart") || str_equal(class, "UnionOperation")
}

} // verus!
