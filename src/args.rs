use crate::composite::Alpha;
use crate::error::{ArgumentError, MagickError};
use crate::geometry::{ResizeConstraint, ResizeGeometry, ResizeTarget};
use crate::gravity::{gravity_named, lower_of, Gravity};
use vstd::prelude::*;
use vstd::string::StrSliceExecFns;

verus! {

pub open spec fn is_digit(c: char) -> bool {
    '0' <= c <= '9'
}

/// The value of a string of decimal digits (0 for the empty string).
pub open spec fn digits_value(s: Seq<char>) -> int
    decreases s.len(),
{
    if s.len() == 0 {
        0
    } else {
        digits_value(s.drop_last()) * 10 + (s.last() as int - '0' as int)
    }
}

/// A token without its leading `+`, if it has one.
pub open spec fn sign_stripped(s: Seq<char>) -> Seq<char> {
    if s.len() > 0 && s[0] == '+' {
        s.drop_first()
    } else {
        s
    }
}

/// The unsigned integer a token spells: an optional `+`, then one or more
/// decimal digits; `None` for anything else.
pub open spec fn unsigned_of(s: Seq<char>) -> Option<int> {
    let d = sign_stripped(s);
    if d.len() > 0 && forall|i: int| 0 <= i < d.len() ==> is_digit(#[trigger] d[i]) {
        Some(digits_value(d))
    } else {
        None
    }
}

/// The (start, end) bounds of the pieces of `s[..n]` between occurrences of `sep`.
pub open spec fn split_bounds(s: Seq<char>, sep: char, n: nat) -> Seq<(int, int)>
    decreases n,
{
    if n == 0 {
        seq![(0int, 0int)]
    } else {
        let prev = split_bounds(s, sep, (n - 1) as nat);
        if s[n - 1] == sep {
            prev.push((n as int, n as int))
        } else {
            prev.update(prev.len() - 1, (prev.last().0, n as int))
        }
    }
}

/// The pieces of `s` between occurrences of `sep`, as `str::split` yields them.
pub open spec fn split_spec(s: Seq<char>, sep: char) -> Seq<Seq<char>> {
    split_bounds(s, sep, s.len()).map_values(|b: (int, int)| s.subrange(b.0, b.1))
}

/// The piece `k` of `s` split at `sep`, read as an unsigned integer of at most `max`.
pub open spec fn field_value(s: Seq<char>, sep: char, k: int, max: int) -> Option<int> {
    match unsigned_of(split_spec(s, sep)[k]) {
        Some(v) => if v <= max { Some(v) } else { None },
        None => None,
    }
}

/// The width and height a `WxH` resize argument names.
pub open spec fn resize_arg_spec(s: Seq<char>) -> Option<(int, int)> {
    if split_spec(s, 'x').len() == 2 {
        match (field_value(s, 'x', 0, u32::MAX as int), field_value(s, 'x', 1, u32::MAX as int)) {
            (Some(w), Some(h)) => Some((w, h)),
            _ => None,
        }
    } else {
        None
    }
}

/// The colour an `R,G,B,A` argument names.
pub open spec fn rgba_arg_spec(s: Seq<char>) -> Option<(int, int, int, int)> {
    if split_spec(s, ',').len() == 4 {
        match (
            field_value(s, ',', 0, 255),
            field_value(s, ',', 1, 255),
            field_value(s, ',', 2, 255),
            field_value(s, ',', 3, 255),
        ) {
            (Some(r), Some(g), Some(b), Some(a)) => Some((r, g, b, a)),
            _ => None,
        }
    } else {
        None
    }
}

fn chars_of(s: &str) -> (r: Vec<char>)
    ensures
        r@ == s@,
{
    let n = s.unicode_len();
    let mut out: Vec<char> = Vec::new();
    let mut i: usize = 0;
    while i < n
        invariant
            n == s@.len(),
            i <= n,
            out@ == s@.subrange(0, i as int),
        decreases n - i,
    {
        out.push(s.get_char(i));
        i = i + 1;
        assert(out@ =~= s@.subrange(0, i as int));
    }
    assert(out@ =~= s@);
    out
}

proof fn lemma_split_bounds_shape(s: Seq<char>, sep: char, n: nat)
    requires
        n <= s.len(),
    ensures
        split_bounds(s, sep, n).len() >= 1,
        split_bounds(s, sep, n).last().1 == n,
        forall|k: int|
            0 <= k < split_bounds(s, sep, n).len() ==> 0 <= (#[trigger] split_bounds(s, sep, n)[k]).0
                <= split_bounds(s, sep, n)[k].1 <= n,
    decreases n,
{
    if n > 0 {
        lemma_split_bounds_shape(s, sep, (n - 1) as nat);
        let prev = split_bounds(s, sep, (n - 1) as nat);
        let cur = split_bounds(s, sep, n);
        assert forall|k: int| 0 <= k < cur.len() implies 0 <= (#[trigger] cur[k]).0 <= cur[k].1
            <= n by {
            if k < prev.len() && !(s[n - 1] != sep && k == prev.len() - 1) {
                assert(cur[k] == prev[k]);
            }
        }
    }
}

/// The bounds of the pieces of `s` between occurrences of `sep`.
fn split_at(s: &Vec<char>, sep: char) -> (r: Vec<(usize, usize)>)
    ensures
        r@.len() == split_bounds(s@, sep, s@.len()).len(),
        forall|k: int|
            0 <= k < r@.len() ==> (#[trigger] r@[k]).0 as int == split_bounds(s@, sep, s@.len())[k].0
                && r@[k].1 as int == split_bounds(s@, sep, s@.len())[k].1,
{
    let n = s.len();
    let mut bounds: Vec<(usize, usize)> = vec![(0, 0)];
    let mut i: usize = 0;
    while i < n
        invariant
            n == s@.len(),
            i <= n,
            bounds@.len() == split_bounds(s@, sep, i as nat).len(),
            bounds@.len() >= 1,
            forall|k: int|
                0 <= k < bounds@.len() ==> (#[trigger] bounds@[k]).0 as int == split_bounds(
                    s@,
                    sep,
                    i as nat,
                )[k].0 && bounds@[k].1 as int == split_bounds(s@, sep, i as nat)[k].1,
        decreases n - i,
    {
        proof {
            lemma_split_bounds_shape(s@, sep, i as nat);
        }
        if s[i] == sep {
            bounds.push((i + 1, i + 1));
        } else {
            let last = bounds.len() - 1;
            let start = bounds[last].0;
            bounds.set(last, (start, i + 1));
        }
        i = i + 1;
    }
    bounds
}

proof fn lemma_digits_value_grows(s: Seq<char>, k: int)
    requires
        0 <= k <= s.len(),
        forall|i: int| 0 <= i < s.len() ==> is_digit(#[trigger] s[i]),
    ensures
        digits_value(s.subrange(0, k)) <= digits_value(s),
        digits_value(s) >= 0,
    decreases s.len(),
{
    if s.len() > 0 {
        let p = s.drop_last();
        assert forall|i: int| 0 <= i < p.len() implies is_digit(#[trigger] p[i]) by {
            assert(p[i] == s[i]);
        }
        if k == s.len() {
            assert(s.subrange(0, k) =~= s);
            lemma_digits_value_grows(p, 0);
        } else {
            assert(s.subrange(0, k) =~= p.subrange(0, k));
            lemma_digits_value_grows(p, k);
        }
    } else {
        assert(s.subrange(0, k) =~= s);
    }
}

/// Reads `s[start..end]` as an unsigned integer of at most `max`.
fn parse_unsigned(s: &Vec<char>, start: usize, end: usize, max: u32) -> (r: Option<u32>)
    requires
        start <= end <= s@.len(),
    ensures
        r matches Some(v) ==> unsigned_of(s@.subrange(start as int, end as int)) == Some(v as int)
            && v <= max,
        r is None ==> (unsigned_of(s@.subrange(start as int, end as int)) is None || unsigned_of(
            s@.subrange(start as int, end as int),
        ).unwrap() > max),
{
    let ghost t = s@.subrange(start as int, end as int);
    assert(start < end ==> t[0] == s@[start as int]);
    let mut i = start;
    if i < end && s[i] == '+' {
        i = i + 1;
    }
    let ghost d = s@.subrange(i as int, end as int);
    assert(d =~= sign_stripped(t));
    if i == end {
        return None;
    }
    let mut acc: u64 = 0;
    let mut too_big = false;
    let mut j = i;
    while j < end
        invariant
            i <= j <= end <= s@.len(),
            d == s@.subrange(i as int, end as int),
            d == sign_stripped(t),
            t == s@.subrange(start as int, end as int),
            forall|q: int| i <= q < j ==> is_digit(#[trigger] s@[q]),
            !too_big ==> acc == digits_value(s@.subrange(i as int, j as int)) && acc <= max,
            too_big ==> digits_value(s@.subrange(i as int, j as int)) > max,
        decreases end - j,
    {
        let c = s[j];
        if !('0' <= c && c <= '9') {
            assert(d[j - i] == s@[j as int]);
            assert(!is_digit(d[j - i]));
            return None;
        }
        let ghost prefix = s@.subrange(i as int, j as int);
        let ghost next = s@.subrange(i as int, j + 1);
        assert(next.drop_last() =~= prefix);
        proof {
            assert forall|q: int| 0 <= q < prefix.len() implies is_digit(#[trigger] prefix[q]) by {
                assert(prefix[q] == s@[i + q]);
            }
            lemma_digits_value_grows(prefix, 0);
        }
        if !too_big {
            let v: u64 = acc * 10 + (c as u64 - '0' as u64);
            if v > max as u64 {
                too_big = true;
            } else {
                acc = v;
            }
        }
        j = j + 1;
    }
    assert(s@.subrange(i as int, end as int) =~= d);
    assert forall|q: int| 0 <= q < d.len() implies is_digit(#[trigger] d[q]) by {
        assert(d[q] == s@[i + q]);
    }
    if too_big {
        None
    } else {
        Some(acc as u32)
    }
}

/// Reads piece `k` of `s` split at `sep` (with bounds `b`) as an unsigned
/// integer of at most `max`.
fn field(s: &Vec<char>, sep: char, b: &Vec<(usize, usize)>, k: usize, max: u32) -> (r: Option<u32>)
    requires
        k < b@.len(),
        b@.len() == split_bounds(s@, sep, s@.len()).len(),
        forall|q: int|
            0 <= q < b@.len() ==> (#[trigger] b@[q]).0 as int == split_bounds(s@, sep, s@.len())[q].0
                && b@[q].1 as int == split_bounds(s@, sep, s@.len())[q].1,
    ensures
        r matches Some(v) ==> field_value(s@, sep, k as int, max as int) == Some(v as int),
        r is None ==> field_value(s@, sep, k as int, max as int) is None,
{
    proof {
        lemma_split_bounds_shape(s@, sep, s@.len());
    }
    let (start, end) = b[k];
    assert(split_spec(s@, sep)[k as int] == s@.subrange(start as int, end as int));
    parse_unsigned(s, start, end, max)
}

/// Parses a `WxH` resize argument into a shrink-only, aspect-preserving fit
/// into that box. It must be two unsigned 32-bit integers joined by one `x`;
/// the error names the part that is wrong.
pub fn parse_resize_arg(s: &str) -> (r: Result<ResizeGeometry, MagickError>)
    ensures
        resize_arg_spec(s@) matches Some(d) ==> r == Ok::<ResizeGeometry, MagickError>(
            ResizeGeometry {
                target: ResizeTarget::Size {
                    width: Some(d.0 as u32),
                    height: Some(d.1 as u32),
                    ignore_aspect_ratio: false,
                },
                constraint: ResizeConstraint::OnlyShrink,
            },
        ),
        split_spec(s@, 'x').len() != 2 ==> r == Err::<ResizeGeometry, MagickError>(
            MagickError::InvalidArgument(ArgumentError::Resize),
        ),
        split_spec(s@, 'x').len() == 2 && field_value(s@, 'x', 0, u32::MAX as int) is None ==> r
            == Err::<ResizeGeometry, MagickError>(
            MagickError::InvalidArgument(ArgumentError::ResizeWidth),
        ),
        split_spec(s@, 'x').len() == 2 && field_value(s@, 'x', 0, u32::MAX as int) is Some
            && field_value(s@, 'x', 1, u32::MAX as int) is None ==> r == Err::<
            ResizeGeometry,
            MagickError,
        >(MagickError::InvalidArgument(ArgumentError::ResizeHeight)),
{
    let cs = chars_of(s);
    let b = split_at(&cs, 'x');
    if b.len() != 2 {
        return Err(MagickError::InvalidArgument(ArgumentError::Resize));
    }
    let w = match field(&cs, 'x', &b, 0, u32::MAX) {
        Some(v) => v,
        None => {
            return Err(MagickError::InvalidArgument(ArgumentError::ResizeWidth));
        },
    };
    let h = match field(&cs, 'x', &b, 1, u32::MAX) {
        Some(v) => v,
        None => {
            return Err(MagickError::InvalidArgument(ArgumentError::ResizeHeight));
        },
    };
    Ok(
        ResizeGeometry {
            target: ResizeTarget::Size {
                width: Some(w),
                height: Some(h),
                ignore_aspect_ratio: false,
            },
            constraint: ResizeConstraint::OnlyShrink,
        },
    )
}

/// Parses an `R,G,B,A` colour; `InvalidArgument(RgbaColor)` unless it is four integers
/// from 0 to 255 joined by commas.
pub fn parse_rgba_arg(s: &str) -> (r: Result<(u8, u8, u8, u8), MagickError>)
    ensures
        rgba_arg_spec(s@) matches Some(c) ==> r == Ok::<(u8, u8, u8, u8), MagickError>(
            (c.0 as u8, c.1 as u8, c.2 as u8, c.3 as u8),
        ),
        rgba_arg_spec(s@) is None ==> r == Err::<(u8, u8, u8, u8), MagickError>(
            MagickError::InvalidArgument(ArgumentError::RgbaColor),
        ),
{
    let cs = chars_of(s);
    let b = split_at(&cs, ',');
    if b.len() != 4 {
        return Err(MagickError::InvalidArgument(ArgumentError::RgbaColor));
    }
    let mut c: Vec<u8> = Vec::new();
    let mut k: usize = 0;
    while k < 4
        invariant
            cs@ == s@,
            b@.len() == 4,
            b@.len() == split_bounds(cs@, ',', cs@.len()).len(),
            forall|q: int|
                0 <= q < b@.len() ==> (#[trigger] b@[q]).0 as int == split_bounds(
                    cs@,
                    ',',
                    cs@.len(),
                )[q].0 && b@[q].1 as int == split_bounds(cs@, ',', cs@.len())[q].1,
            k <= 4,
            c@.len() == k,
            forall|q: int|
                0 <= q < k ==> field_value(cs@, ',', q, 255) == Some(#[trigger] c@[q] as int),
        decreases 4 - k,
    {
        match field(&cs, ',', &b, k, 255) {
            Some(v) => c.push(v as u8),
            None => {
                assert(k == 0 || k == 1 || k == 2 || k == 3);
                return Err(MagickError::InvalidArgument(ArgumentError::RgbaColor));
            },
        }
        k = k + 1;
    }
    Ok((c[0], c[1], c[2], c[3]))
}

/// A watermark is either an image or a text, not both.
pub fn check_watermark_flags(has_image: bool, has_text: bool) -> (r: Result<(), MagickError>)
    ensures
        r == (if has_image && has_text {
            Err::<(), MagickError>(MagickError::InvalidArgument(ArgumentError::ConflictingWatermarks))
        } else {
            Ok(())
        }),
{
    if has_image && has_text {
        Err(MagickError::InvalidArgument(ArgumentError::ConflictingWatermarks))
    } else {
        Ok(())
    }
}

/// The gravity a flag names: `Center` when the flag is absent,
/// `InvalidArgument(Gravity)` when it names no gravity.
pub fn gravity_arg(token: Option<&str>) -> (r: Result<Gravity, MagickError>)
    ensures
        token is None ==> r == Ok::<Gravity, MagickError>(Gravity::Center),
        token matches Some(t) ==> (gravity_named(lower_of(t@)) matches Some(g) ==> r == Ok::<
            Gravity,
            MagickError,
        >(g)),
        token matches Some(t) ==> (gravity_named(lower_of(t@)) is None ==> r == Err::<
            Gravity,
            MagickError,
        >(MagickError::InvalidArgument(ArgumentError::Gravity))),
{
    match token {
        Some(t) => Gravity::try_from(t),
        None => Ok(Gravity::Center),
    }
}

/// The colour of a text watermark: opaque white when the flag is absent,
/// else the `R,G,B,A` value it gives.
pub fn text_color_arg(token: Option<&str>) -> (r: Result<(u8, u8, u8, u8), MagickError>)
    ensures
        token is None ==> r == Ok::<(u8, u8, u8, u8), MagickError>((255u8, 255u8, 255u8, 255u8)),
        token matches Some(t) ==> (rgba_arg_spec(t@) matches Some(c) ==> r == Ok::<
            (u8, u8, u8, u8),
            MagickError,
        >((c.0 as u8, c.1 as u8, c.2 as u8, c.3 as u8))),
        token matches Some(t) ==> (rgba_arg_spec(t@) is None ==> r == Err::<
            (u8, u8, u8, u8),
            MagickError,
        >(MagickError::InvalidArgument(ArgumentError::RgbaColor))),
{
    match token {
        Some(t) => parse_rgba_arg(t),
        None => Ok((255, 255, 255, 255)),
    }
}

/// The opacity of an image watermark, given in thousandths: full opacity when
/// the flag is absent, else the value clamped to [0, 1].
pub fn opacity_arg(thousandths: Option<u32>) -> (r: Alpha)
    ensures
        r.wf(),
        thousandths is None ==> r == (Alpha { num: 1, den: 1 }),
        thousandths matches Some(v) ==> r == (Alpha { num: if v > 1000 { 1000 } else { v }, den: 1000 }),
{
    match thousandths {
        Some(v) => Alpha::new(v, 1000),
        None => Alpha::opaque(),
    }
}

/// The character of a decimal digit.
pub open spec fn digit_char(d: int) -> char {
    if d == 0 {
        '0'
    } else if d == 1 {
        '1'
    } else if d == 2 {
        '2'
    } else if d == 3 {
        '3'
    } else if d == 4 {
        '4'
    } else if d == 5 {
        '5'
    } else if d == 6 {
        '6'
    } else if d == 7 {
        '7'
    } else if d == 8 {
        '8'
    } else {
        '9'
    }
}

/// The decimal digits of `n`, without leading zeros.
pub open spec fn decimal(n: nat) -> Seq<char>
    decreases n,
{
    if n < 10 {
        seq![digit_char(n as int)]
    } else {
        decimal(n / 10).push(digit_char((n % 10) as int))
    }
}

/// A template with `%w` replaced by `width` and `%h` by `height`, in decimal.
pub open spec fn expand_template(t: Seq<char>, width: nat, height: nat) -> Seq<char>
    decreases t.len(),
{
    if t.len() == 0 {
        Seq::empty()
    } else if t.len() >= 2 && t[0] == '%' && t[1] == 'w' {
        decimal(width) + expand_template(t.skip(2), width, height)
    } else if t.len() >= 2 && t[0] == '%' && t[1] == 'h' {
        decimal(height) + expand_template(t.skip(2), width, height)
    } else {
        seq![t[0]] + expand_template(t.skip(1), width, height)
    }
}

fn digit(d: u32) -> (r: char)
    requires
        d < 10,
    ensures
        r == digit_char(d as int),
{
    if d == 0 {
        '0'
    } else if d == 1 {
        '1'
    } else if d == 2 {
        '2'
    } else if d == 3 {
        '3'
    } else if d == 4 {
        '4'
    } else if d == 5 {
        '5'
    } else if d == 6 {
        '6'
    } else if d == 7 {
        '7'
    } else if d == 8 {
        '8'
    } else {
        '9'
    }
}

/// The decimal digits of `n`.
pub fn decimal_digits(n: u32) -> (r: Vec<char>)
    ensures
        r@ == decimal(n as nat),
    decreases n,
{
    if n < 10 {
        let mut v: Vec<char> = Vec::new();
        v.push(digit(n));
        assert(v@ =~= seq![digit_char(n as int)]);
        v
    } else {
        let mut v = decimal_digits(n / 10);
        v.push(digit(n % 10));
        v
    }
}

fn append_all(out: &mut Vec<char>, more: &Vec<char>)
    ensures
        final(out)@ == old(out)@ + more@,
{
    let mut i: usize = 0;
    let ghost start = out@;
    while i < more.len()
        invariant
            i <= more@.len(),
            out@ == start + more@.subrange(0, i as int),
        decreases more@.len() - i,
    {
        out.push(more[i]);
        i = i + 1;
        assert(out@ =~= start + more@.subrange(0, i as int));
    }
    assert(more@.subrange(0, more@.len() as int) =~= more@);
}

/// The line `Identify` reports: `template` with `%w` and `%h` replaced by the
/// image width and height.
pub fn identify_text(template: &str, width: u32, height: u32) -> (r: Vec<char>)
    ensures
        r@ == expand_template(template@, width as nat, height as nat),
{
    let t = chars_of(template);
    let n = t.len();
    let w = decimal_digits(width);
    let h = decimal_digits(height);
    let mut out: Vec<char> = Vec::new();
    let mut i: usize = 0;
    assert(t@.skip(0) =~= t@);
    assert(out@ + expand_template(t@, width as nat, height as nat) =~= expand_template(
        t@,
        width as nat,
        height as nat,
    ));
    while i < n
        invariant
            n == t@.len(),
            i <= n,
            w@ == decimal(width as nat),
            h@ == decimal(height as nat),
            expand_template(t@, width as nat, height as nat) == out@ + expand_template(
                t@.skip(i as int),
                width as nat,
                height as nat,
            ),
        decreases n - i,
    {
        let ghost rest = t@.skip(i as int);
        if i + 1 < n && t[i] == '%' && t[i + 1] == 'w' {
            assert(rest.skip(2) =~= t@.skip(i + 2));
            append_all(&mut out, &w);
            i = i + 2;
        } else if i + 1 < n && t[i] == '%' && t[i + 1] == 'h' {
            assert(rest.skip(2) =~= t@.skip(i + 2));
            append_all(&mut out, &h);
            i = i + 2;
        } else {
            assert(rest.skip(1) =~= t@.skip(i + 1));
            out.push(t[i]);
            i = i + 1;
        }
        assert(out@ + expand_template(t@.skip(i as int), width as nat, height as nat) =~= expand_template(t@, width as nat, height as nat));
    }
    assert(t@.skip(n as int) =~= Seq::<char>::empty());
    assert(out@ =~= out@ + Seq::<char>::empty());
    out
}

} // verus!
