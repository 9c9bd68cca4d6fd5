use vstd::prelude::*;

verus! {

/// Latitude is held in microdegrees: `-90_000_000 ..= 90_000_000`.
pub const LAT_LIMIT_E6: i64 = 90_000_000;
/// Longitude is held in microdegrees: `-180_000_000 ..= 180_000_000`.
pub const LON_LIMIT_E6: i64 = 180_000_000;

/// Number of geohash characters stored on a media record.
pub const STORED_GEOHASH_PRECISION: usize = 7;

pub open spec fn valid_lat_e6(lat: int) -> bool {
    -90_000_000 <= lat <= 90_000_000
}

pub open spec fn valid_lon_e6(lon: int) -> bool {
    -180_000_000 <= lon <= 180_000_000
}

/// Map a map-view zoom level to the geohash prefix length used for clustering:
/// coarser zoom gives a shorter prefix and therefore bigger clusters.
pub open spec fn spec_zoom_precision(zoom: int) -> int {
    if zoom <= 3 { 1 }
    else if zoom <= 6 { 2 }
    else if zoom <= 9 { 3 }
    else if zoom <= 12 { 4 }
    else if zoom <= 15 { 5 }
    else if zoom <= 18 { 6 }
    else { 7 }
}

pub fn zoom_to_geohash_precision(zoom: u8) -> (p: usize)
    ensures
        p == spec_zoom_precision(zoom as int),
        1 <= p <= 7,
{
    if zoom <= 3 { 1 }
    else if zoom <= 6 { 2 }
    else if zoom <= 9 { 3 }
    else if zoom <= 12 { 4 }
    else if zoom <= 15 { 5 }
    else if zoom <= 18 { 6 }
    else { 7 }
}

/// Powers of two, used to talk about the binary expansion of an axis code.
pub closed spec fn p2(n: nat) -> nat
    decreases n,
{
    if n == 0 { 1 } else { 2 * p2((n - 1) as nat) }
}

pub proof fn lemma_p2_pos(n: nat)
    ensures
        p2(n) >= 1,
    decreases n,
{
    if n > 0 {
        lemma_p2_pos((n - 1) as nat);
    }
}

pub proof fn lemma_p2_unfold(n: nat)
    requires
        n > 0,
    ensures
        p2(n) == 2 * p2((n - 1) as nat),
{
}

pub proof fn lemma_p2_mono(a: nat, b: nat)
    requires
        a <= b,
    ensures
        p2(a) <= p2(b),
    decreases b,
{
    if a < b {
        lemma_p2_mono(a, (b - 1) as nat);
        lemma_p2_pos((b - 1) as nat);
    }
}

pub proof fn lemma_p2_30()
    ensures
        p2(30) == 0x40000000,
{
    reveal_with_fuel(p2, 32);
}

/// The `nbits`-bit code of one axis: the offset value scaled into `0 .. 2^nbits`,
/// clamped so that the top end of the axis still gets a valid code.
pub open spec fn spec_axis_code(v_off: int, span: int, nbits: nat) -> int {
    let raw = v_off * p2(nbits) / span;
    if raw > p2(nbits) - 1 { p2(nbits) - 1 } else { raw }
}

/// Bit `pos` (counted from the least significant end) of `code`.
pub open spec fn spec_bit(code: int, pos: nat) -> int {
    (code / p2(pos) as int) % 2
}

/// Geohash interleaves bits longitude-first: even positions in the bit string
/// come from the longitude code, odd positions from the latitude code, each
/// consumed from the most significant bit down.
pub open spec fn spec_gh_bit(latc: int, lonc: int, nlat: nat, nlon: nat, j: int) -> int {
    if j % 2 == 0 {
        spec_bit(lonc, (nlon - 1 - j / 2) as nat)
    } else {
        spec_bit(latc, (nlat - 1 - (j - 1) / 2) as nat)
    }
}

/// The value of the `k`-th base32 symbol: five interleaved bits.
pub open spec fn spec_gh_symbol(latc: int, lonc: int, nlat: nat, nlon: nat, k: int) -> int {
    16 * spec_gh_bit(latc, lonc, nlat, nlon, 5 * k)
        + 8 * spec_gh_bit(latc, lonc, nlat, nlon, 5 * k + 1)
        + 4 * spec_gh_bit(latc, lonc, nlat, nlon, 5 * k + 2)
        + 2 * spec_gh_bit(latc, lonc, nlat, nlon, 5 * k + 3)
        + spec_gh_bit(latc, lonc, nlat, nlon, 5 * k + 4)
}

/// The geohash base32 alphabet (digits and letters, without a, i, l, o).
pub open spec fn base32_alphabet() -> Seq<char> {
    seq![
        '0', '1', '2', '3', '4', '5', '6', '7', '8', '9', 'b', 'c', 'd', 'e', 'f', 'g',
        'h', 'j', 'k', 'm', 'n', 'p', 'q', 'r', 's', 't', 'u', 'v', 'w', 'x', 'y', 'z',
    ]
}

/// The geohash of a coordinate at the given precision, as a character sequence.
pub open spec fn spec_geohash(lat_e6: int, lon_e6: int, precision: nat) -> Seq<char> {
    let nlon = ((5 * precision + 1) / 2) as nat;
    let nlat = ((5 * precision) / 2) as nat;
    let latc = spec_axis_code(lat_e6 + 90_000_000, 180_000_000, nlat);
    let lonc = spec_axis_code(lon_e6 + 180_000_000, 360_000_000, nlon);
    Seq::new(precision, |k: int| base32_alphabet()[spec_gh_symbol(latc, lonc, nlat, nlon, k)])
}

fn pow2_u64(e: u64) -> (r: u64)
    requires
        e <= 30,
    ensures
        r == p2(e as nat),
        r <= 0x40000000,
{
    proof {
        lemma_p2_mono(e as nat, 30);
        lemma_p2_30();
    }
    let mut r: u64 = 1;
    let mut i: u64 = 0;
    while i < e
        invariant
            i <= e <= 30,
            r == p2(i as nat),
            r <= 0x40000000,
        decreases e - i,
    {
        proof {
            lemma_p2_unfold((i + 1) as nat);
            lemma_p2_mono((i + 1) as nat, 30);
            lemma_p2_30();
        }
        r = r * 2;
        i = i + 1;
    }
    r
}

fn axis_code(v_off: u64, span: u64, nbits: u64) -> (c: u64)
    requires
        0 < span <= 360_000_000,
        v_off <= span,
        nbits <= 30,
    ensures
        c == spec_axis_code(v_off as int, span as int, nbits as nat),
        c < p2(nbits as nat),
{
    let m = pow2_u64(nbits);
    proof {
        lemma_p2_pos(nbits as nat);
    }
    assert(v_off * m <= 360_000_000 * 0x40000000) by (nonlinear_arith)
        requires 0 <= v_off <= 360_000_000, 0 <= m <= 0x40000000;
    let q = (v_off * m) / span;
    assert(q <= m) by {
        let vo = v_off as int;
        let mm = m as int;
        let sp = span as int;
        assert(vo * mm <= sp * mm) by (nonlinear_arith)
            requires vo <= sp, mm >= 0;
        assert(sp * mm / sp == mm) by (nonlinear_arith)
            requires sp > 0, mm >= 0;
        assert(vo * mm / sp <= sp * mm / sp) by (nonlinear_arith)
            requires sp > 0, vo * mm <= sp * mm, mm >= 0, vo >= 0;
    };
    if q > m - 1 {
        m - 1
    } else {
        q
    }
}

fn nth_bit(code: u64, pos: u64) -> (b: u64)
    requires
        pos <= 30,
    ensures
        b == spec_bit(code as int, pos as nat),
        b < 2,
{
    let d = pow2_u64(pos);
    proof {
        lemma_p2_pos(pos as nat);
    }
    (code / d) % 2
}

fn base32_symbol(v: u64) -> (c: char)
    requires
        v < 32,
    ensures
        c == base32_alphabet()[v as int],
{
    match v {
        0 => '0', 1 => '1', 2 => '2', 3 => '3', 4 => '4', 5 => '5', 6 => '6', 7 => '7',
        8 => '8', 9 => '9', 10 => 'b', 11 => 'c', 12 => 'd', 13 => 'e', 14 => 'f', 15 => 'g',
        16 => 'h', 17 => 'j', 18 => 'k', 19 => 'm', 20 => 'n', 21 => 'p', 22 => 'q', 23 => 'r',
        24 => 's', 25 => 't', 26 => 'u', 27 => 'v', 28 => 'w', 29 => 'x', 30 => 'y', _ => 'z',
    }
}

/// Relies on `String::push`: appends one character at the end.
#[verifier::external_body]
pub(crate) fn push_char(s: &mut String, c: char)
    ensures
        final(s)@ == old(s)@.push(c),
{
    s.push(c);
}

/// Encode a coordinate as a geohash of the given precision, by the standard
/// base32, longitude-then-latitude bit interleaving.
pub fn geohash_encode(lat_e6: i64, lon_e6: i64, precision: usize) -> (s: String)
    requires
        valid_lat_e6(lat_e6 as int),
        valid_lon_e6(lon_e6 as int),
        1 <= precision <= 12,
    ensures
        s@ == spec_geohash(lat_e6 as int, lon_e6 as int, precision as nat),
        s@.len() == precision,
{
    let nlon: u64 = (5 * (precision as u64) + 1) / 2;
    let nlat: u64 = (5 * (precision as u64)) / 2;
    let lat_off: u64 = (lat_e6 + LAT_LIMIT_E6) as u64;
    let lon_off: u64 = (lon_e6 + LON_LIMIT_E6) as u64;
    let latc = axis_code(lat_off, 180_000_000, nlat);
    let lonc = axis_code(lon_off, 360_000_000, nlon);

    let ghost target = spec_geohash(lat_e6 as int, lon_e6 as int, precision as nat);
    let mut s = String::new();
    let mut k: usize = 0;
    while k < precision
        invariant
            k <= precision <= 12,
            nlon == (5 * precision + 1) / 2,
            nlat == (5 * precision) / 2,
            latc == spec_axis_code(lat_e6 + 90_000_000, 180_000_000, nlat as nat),
            lonc == spec_axis_code(lon_e6 + 180_000_000, 360_000_000, nlon as nat),
            target == spec_geohash(lat_e6 as int, lon_e6 as int, precision as nat),
            s@.len() == k,
            forall|i: int| 0 <= i < k ==> s@[i] == target[i],
        decreases precision - k,
    {
        let b0 = interleaved_bit(latc, lonc, nlat, nlon, 5 * (k as u64));
        let b1 = interleaved_bit(latc, lonc, nlat, nlon, 5 * (k as u64) + 1);
        let b2 = interleaved_bit(latc, lonc, nlat, nlon, 5 * (k as u64) + 2);
        let b3 = interleaved_bit(latc, lonc, nlat, nlon, 5 * (k as u64) + 3);
        let b4 = interleaved_bit(latc, lonc, nlat, nlon, 5 * (k as u64) + 4);
        let v = b0 * 16 + b1 * 8 + b2 * 4 + b3 * 2 + b4;
        let c = base32_symbol(v);
        assert(c == target[k as int]);
        push_char(&mut s, c);
        k = k + 1;
    }
    assert(s@ =~= target);
    s
}

fn interleaved_bit(latc: u64, lonc: u64, nlat: u64, nlon: u64, j: u64) -> (b: u64)
    requires
        nlat <= 30,
        nlon <= 30,
        nlon == nlat || nlon == nlat + 1,
        j < nlat + nlon,
    ensures
        b == spec_gh_bit(latc as int, lonc as int, nlat as nat, nlon as nat, j as int),
        b < 2,
{
    if j % 2 == 0 {
        nth_bit(lonc, nlon - 1 - j / 2)
    } else {
        nth_bit(latc, nlat - 1 - (j - 1) / 2)
    }
}

/// The geohash stored on a media record: fixed precision, defined only when
/// the coordinate is within range.
pub fn calculate_geohash(lat_e6: i64, lon_e6: i64) -> (r: Option<String>)
    ensures
        r is Some <==> valid_lat_e6(lat_e6 as int) && valid_lon_e6(lon_e6 as int),
        r is Some ==> r->Some_0@ == spec_geohash(lat_e6 as int, lon_e6 as int, 7)
            && r->Some_0@.len() == 7,
{
    if lat_e6 >= -LAT_LIMIT_E6 && lat_e6 <= LAT_LIMIT_E6
        && lon_e6 >= -LON_LIMIT_E6 && lon_e6 <= LON_LIMIT_E6 {
        Some(geohash_encode(lat_e6, lon_e6, STORED_GEOHASH_PRECISION))
    } else {
        None
    }
}

} // verus!
