//! Sizes in words: bytes scaled down by thousands to one decimal.
//!
//! The scaling is that of double-precision arithmetic, done here on whole numbers: a double
//! is a mantissa of 53 bits, divided by a power of two, and every division rounds to the
//! nearest double, a tie to the even mantissa.
use vstd::arithmetic::div_mod::{lemma_div_denominator, lemma_fundamental_div_mod};
use vstd::arithmetic::power2::{lemma2_to64, lemma_pow2_adds, lemma_pow2_pos, lemma_pow2_strictly_increases, lemma_pow2_unfold, pow2};
use vstd::prelude::*;
use vstd::string::*;
use crate::text::{decimal, digit, number_text};

verus! {

/// The smallest mantissa.
pub const LOW: u64 = 0x10_0000_0000_0000;

/// One past the largest mantissa.
pub const HIGH: u64 = 0x20_0000_0000_0000;

/// The whole number nearest to `n / d`, a tie going to the even one.
pub open spec fn nearest(n: int, d: int) -> int {
    let q = n / d;
    let r = n % d;
    if 2 * r > d || (2 * r == d && q % 2 == 1) {
        q + 1
    } else {
        q
    }
}

/// A positive double: `mantissa / 2^scale`.
pub struct Double {
    pub mantissa: int,
    pub scale: int,
}

impl Double {
    pub open spec fn wf(self) -> bool {
        LOW <= self.mantissa < HIGH
    }

    /// The double with that mantissa, which rounding may have carried one bit up.
    pub open spec fn carried(mantissa: int, scale: int) -> Double {
        if mantissa == HIGH {
            Double { mantissa: LOW as int, scale: scale - 1 }
        } else {
            Double { mantissa, scale }
        }
    }

    /// A whole number that needs no rounding, shifted up to a full mantissa.
    pub open spec fn raised(mantissa: int, scale: int) -> Double
        decreases
                if mantissa < LOW {
                    LOW - mantissa
                } else {
                    0
                },
    {
        if mantissa >= LOW || mantissa <= 0 {
            Double { mantissa, scale }
        } else {
            Double::raised(2 * mantissa, scale + 1)
        }
    }

    /// How many bits a whole number has beyond a full mantissa.
    pub open spec fn excess(n: int) -> nat
        decreases n,
    {
        if n < HIGH {
            0
        } else {
            1 + Double::excess(n / 2)
        }
    }

    /// The double nearest to a positive whole number.
    pub open spec fn of(n: int) -> Double {
        if n < HIGH {
            Double::raised(n, 0)
        } else {
            let shift = Double::excess(n);
            Double::carried(nearest(n, pow2(shift) as int), -shift)
        }
    }

    /// The double nearest to a thousandth.
    pub open spec fn thousandth(self) -> Double {
        if self.mantissa * 1024 / 1000 < HIGH {
            Double::carried(nearest(self.mantissa * 1024, 1000), self.scale + 10)
        } else {
            Double::carried(nearest(self.mantissa * 512, 1000), self.scale + 9)
        }
    }

    /// Whether the value is at least a thousand.
    pub open spec fn is_thousand(self) -> bool {
        self.scale < 0 || self.mantissa >= 1000 * pow2(self.scale as nat)
    }

    /// The value in tenths, to the nearest one.
    pub open spec fn tenths(self) -> int {
        nearest(self.mantissa * 10, pow2(self.scale as nat) as int)
    }

    /// The value scaled down by thousands until it is below a thousand, or the units end.
    pub open spec fn scaled_down(self, unit: int) -> (Double, int)
        decreases 4 - unit,
    {
        if self.is_thousand() && unit < 4 {
            self.thousandth().scaled_down(unit + 1)
        } else {
            (self, unit)
        }
    }
}

pub open spec fn unit_name(unit: int) -> Seq<char> {
    if unit == 1 {
        "KB"@
    } else if unit == 2 {
        "MB"@
    } else if unit == 3 {
        "GB"@
    } else {
        "TB"@
    }
}

/// A size in words: whole bytes below a thousand, else one decimal and a unit.
pub open spec fn size_text(bytes: int) -> Seq<char> {
    if bytes < 1000 {
        decimal(if bytes < 0 {
            0
        } else {
            bytes as nat
        }) + " B"@
    } else {
        let (value, unit) = Double::of(bytes).scaled_down(0);
        let tenths = value.tenths();
        decimal((tenths / 10) as nat) + seq!['.', digit((tenths % 10) as nat), ' '] + unit_name(unit)
    }
}

proof fn lemma_powers()
    ensures
        pow2(0) == 1,
        pow2(10) == 1024,
        pow2(43) == 0x800_0000_0000,
        pow2(44) == 0x1000_0000_0000,
        pow2(52) == LOW,
        pow2(53) == HIGH,
        pow2(61) == 0x2000_0000_0000_0000,
        pow2(62) == 0x4000_0000_0000_0000,
        pow2(63) == 0x8000_0000_0000_0000,
{
    lemma2_to64();
    lemma_pow2_adds(32, 11);
    lemma_pow2_adds(32, 12);
    lemma_pow2_adds(32, 20);
    lemma_pow2_adds(32, 21);
    lemma_pow2_adds(32, 29);
    lemma_pow2_adds(32, 30);
    lemma_pow2_adds(32, 31);
}

/// Rounding errs by at most half.
proof fn lemma_nearest(n: int, d: int)
    requires
        d > 0,
        n >= 0,
    ensures
        n / d <= nearest(n, d) <= n / d + 1,
        -d <= 2 * (n - nearest(n, d) * d) <= d,
{
    lemma_fundamental_div_mod(n, d);
    let q = n / d;
    let r = n % d;
    assert(0 <= r < d) by (nonlinear_arith)
        requires
            r == n % d,
            d > 0,
    ;
    assert(n == d * q + r);
    assert((q + 1) * d == d * q + d && q * d == d * q) by (nonlinear_arith);
}

/// No double is nearer to a thousandth than the one that division gives, and the division
/// keeps a full mantissa.
pub proof fn division_rounds_to_nearest(value: Double)
    requires
        value.wf(),
    ensures
        value.thousandth().wf(),
        value.scale + 8 <= value.thousandth().scale <= value.scale + 10,
        value.mantissa * 1024 / 1000 < HIGH ==> -1000 <= 2 * (value.mantissa * 1024 - nearest(
            value.mantissa * 1024,
            1000,
        ) * 1000) <= 1000,
        value.mantissa * 1024 / 1000 >= HIGH ==> -1000 <= 2 * (value.mantissa * 512 - nearest(
            value.mantissa * 512,
            1000,
        ) * 1000) <= 1000,
{
    lemma_nearest(value.mantissa * 1024, 1000);
    lemma_nearest(value.mantissa * 512, 1000);
}

fn round(n: u64, d: u64) -> (r: u64)
    requires
        0 < d <= 0x8000_0000_0000_0000,
        n / d < u64::MAX,
    ensures
        r == nearest(n as int, d as int),
{
    let q = n / d;
    let r = n % d;
    if r > d - r || (r == d - r && q % 2 == 1) {
        q + 1
    } else {
        q
    }
}

fn power_of_two(n: u32) -> (r: u64)
    requires
        n <= 62,
    ensures
        r == pow2(n as nat),
        r > 0,
    decreases n,
{
    proof {
        lemma_pow2_pos(n as nat);
    }
    if n == 0 {
        proof {
            lemma_powers();
        }
        1
    } else {
        proof {
            lemma_pow2_unfold(n as nat);
            lemma_powers();
            if n < 62 {
                lemma_pow2_strictly_increases(n as nat, 62);
            }
            if n - 1 < 61 {
                lemma_pow2_strictly_increases((n - 1) as nat, 61);
            }
        }
        power_of_two(n - 1) * 2
    }
}

fn carry(mantissa: u64, scale: i32) -> (r: (u64, i32))
    requires
        LOW <= mantissa <= HIGH,
        -100 <= scale <= 100,
    ensures
        (Double { mantissa: r.0 as int, scale: r.1 as int }) == Double::carried(
            mantissa as int,
            scale as int,
        ),
        LOW <= r.0 < HIGH,
        scale - 1 <= r.1 <= scale,
{
    if mantissa == HIGH {
        (LOW, scale - 1)
    } else {
        (mantissa, scale)
    }
}

fn double_of(n: u64) -> (r: (u64, i32))
    requires
        1000 <= n < 0x8000_0000_0000_0000,
    ensures
        (Double { mantissa: r.0 as int, scale: r.1 as int }) == Double::of(n as int),
        LOW <= r.0 < HIGH,
        -12 <= r.1 <= 52,
{
    proof {
        lemma_powers();
    }
    if n < HIGH {
        let mut m: u64 = n;
        let mut s: i32 = 0;
        while m < LOW
            invariant
                1000 <= m < HIGH,
                0 <= s <= 52,
                Double::raised(m as int, s as int) == Double::raised(n as int, 0),
                m >= pow2(s as nat),
            decreases HIGH - m,
        {
            proof {
                lemma_powers();
                lemma_pow2_unfold((s + 1) as nat);
                if s >= 52 {
                    if s > 52 {
                        lemma_pow2_strictly_increases(52, s as nat);
                    }
                    assert(pow2(52) == LOW);
                }
            }
            m = m * 2;
            s = s + 1;
        }
        return (m, s);
    }
    let mut p: u64 = n;
    let mut j: u32 = 0;
    proof {
        assert(n as int / pow2(0) as int == n) by {
            lemma_powers();
        }
    }
    while p >= HIGH
        invariant
            LOW <= p <= n < 0x8000_0000_0000_0000,
            j <= 10,
            p < pow2((63 - j) as nat),
            p == n as int / pow2(j as nat) as int,
            Double::excess(n as int) == j + Double::excess(p as int),
        decreases p,
    {
        proof {
            lemma_powers();
            lemma_pow2_pos(j as nat);
            lemma_pow2_unfold((j + 1) as nat);
            lemma_pow2_unfold((63 - j) as nat);
            lemma_div_denominator(n as int, pow2(j as nat) as int, 2);
            if j == 10 {
                assert(pow2(53) == HIGH);
            }
            assert(pow2((j + 1) as nat) == pow2(j as nat) * 2) by (nonlinear_arith)
                requires
                    pow2((j + 1) as nat) == 2 * pow2(j as nat),
            ;
        }
        p = p / 2;
        j = j + 1;
    }
    let d = power_of_two(j);
    proof {
        lemma_powers();
        if j < 10 {
            lemma_pow2_strictly_increases(j as nat, 10);
        }
        lemma_nearest(n as int, d as int);
    }
    carry(round(n, d), -(j as i32))
}

/// A size in words.
pub fn human_size(bytes: i64) -> (r: String)
    ensures
        r@ == size_text(bytes as int),
{
    if bytes < 1000 {
        let whole: u64 = if bytes < 0 {
            0
        } else {
            bytes as u64
        };
        let mut r = number_text(whole);
        r.append(" B");
        return r;
    }
    let (mut m, mut s) = double_of(bytes as u64);
    let mut unit: u32 = 0;
    loop
        invariant
            LOW <= m < HIGH,
            unit <= 4,
            -12 + 8 * unit <= s <= 53,
            (Double { mantissa: m as int, scale: s as int }).scaled_down(unit as int) == Double::of(
                bytes as int,
            ).scaled_down(0),
        ensures
            unit == 4 || !(Double { mantissa: m as int, scale: s as int }).is_thousand(),
        decreases 4 - unit,
    {
        let ghost value = Double { mantissa: m as int, scale: s as int };
        proof {
            lemma_powers();
            if s > 43 {
                lemma_pow2_strictly_increases(43, s as nat);
                if s > 44 {
                    lemma_pow2_strictly_increases(44, s as nat);
                }
                assert(pow2(44) == 2 * pow2(43)) by {
                    lemma_pow2_unfold(44);
                }
            }
        }
        let thousand = if s < 0 {
            true
        } else if s > 43 {
            false
        } else {
            let p = power_of_two(s as u32);
            proof {
                if s < 43 {
                    lemma_pow2_strictly_increases(s as nat, 43);
                }
            }
            m >= 1000 * p
        };
        assert(thousand == value.is_thousand());
        if !thousand || unit >= 4 {
            break;
        }
        proof {
            division_rounds_to_nearest(value);
            lemma_nearest(m * 1024, 1000);
            lemma_nearest(m * 512, 1000);
        }
        let (next, scale) = if m * 1024 / 1000 < HIGH {
            carry(round(m * 1024, 1000), s + 10)
        } else {
            carry(round(m * 512, 1000), s + 9)
        };
        m = next;
        s = scale;
        unit = unit + 1;
    }
    let d = power_of_two(s as u32);
    proof {
        lemma_powers();
        if s < 62 {
            lemma_pow2_strictly_increases(s as nat, 62);
        }
    }
    assert(m * 10 / d as int <= m * 10) by (nonlinear_arith)
        requires
            d >= 1,
            m >= 0,
    ;
    let tenths = round(m * 10, d);
    let mut r = number_text(tenths / 10);
    let ghost whole = r@;
    let last = number_text(tenths % 10);
    r.push('.');
    r.append(last.as_str());
    r.push(' ');
    assert(last@ =~= seq![digit((tenths % 10) as nat)]);
    assert(r@ =~= whole + seq!['.', digit((tenths % 10) as nat), ' ']);
    r.append(
        if unit == 1 {
            "KB"
        } else if unit == 2 {
            "MB"
        } else if unit == 3 {
            "GB"
        } else {
            "TB"
        },
    );
    r
}

/// Fewer than a thousand bytes are counted one by one; from a thousand on a size is told with one
/// decimal and the unit it was scaled down to.
pub proof fn sizes_are_told_in_bytes_up_to_a_thousand(bytes: int)
    ensures
        bytes <= 0 ==> size_text(bytes) == decimal(0) + " B"@,
        0 <= bytes < 1000 ==> size_text(bytes) == decimal(bytes as nat) + " B"@,
        bytes >= 1000 ==> {
            let (value, unit) = Double::of(bytes).scaled_down(0);
            let whole = decimal((value.tenths() / 10) as nat);
            &&& size_text(bytes)[whole.len() as int] == '.'
            &&& size_text(bytes)[whole.len() as int + 1] == digit((value.tenths() % 10) as nat)
            &&& size_text(bytes).take(whole.len() as int) == whole
            &&& size_text(bytes).skip(whole.len() as int + 3) == unit_name(unit)
        },
        unit_name(1) == "KB"@ && unit_name(2) == "MB"@ && unit_name(3) == "GB"@ && unit_name(4)
            == "TB"@,
{
    if bytes >= 1000 {
        let (value, unit) = Double::of(bytes).scaled_down(0);
        let whole = decimal((value.tenths() / 10) as nat);
        let text = size_text(bytes);
        assert(text == whole + seq!['.', digit((value.tenths() % 10) as nat), ' '] + unit_name(unit));
        assert(text.take(whole.len() as int) =~= whole);
        assert(text.skip(whole.len() as int + 3) =~= unit_name(unit));
    }
}

} // verus!
