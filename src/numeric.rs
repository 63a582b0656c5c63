use vstd::prelude::*;

use crate::value::Numeric;

verus! {

/// `x` limited to the range of `i64`.
pub open spec fn clamp_i64(x: int) -> int {
    if x > i64::MAX {
        i64::MAX as int
    } else if x < i64::MIN {
        i64::MIN as int
    } else {
        x
    }
}

/// `x` limited to the range of `u64`.
pub open spec fn clamp_u64(x: int) -> int {
    if x > u64::MAX {
        u64::MAX as int
    } else if x < 0 {
        0
    } else {
        x
    }
}

/// The `i64` that `x` wraps to: `x` taken modulo 2^64 into `[i64::MIN, i64::MAX]`.
pub open spec fn wrap_i64(x: int) -> int {
    (x - i64::MIN) % 0x1_0000_0000_0000_0000 + i64::MIN
}

/// The `u64` that `x` wraps to: `x` modulo 2^64.
pub open spec fn wrap_u64(x: int) -> int {
    x % 0x1_0000_0000_0000_0000
}

/// `n` is a float, whose arithmetic this library does not perform.
pub open spec fn is_float(n: Numeric) -> bool {
    n is Float
}

/// The integer kinds of `n` as an `i64`, converted saturating or wrapping.
pub open spec fn as_i64_spec(n: Numeric, saturating: bool) -> int {
    match n {
        Numeric::Integer(v) => v as int,
        Numeric::UnsignedInteger(v) => if saturating {
            clamp_i64(v as int)
        } else {
            wrap_i64(v as int)
        },
        Numeric::Float(_) => 0,
    }
}

/// The integer kinds of `n` as a `u64`, converted saturating or wrapping.
pub open spec fn as_u64_spec(n: Numeric, saturating: bool) -> int {
    match n {
        Numeric::Integer(v) => if saturating {
            clamp_u64(v as int)
        } else {
            wrap_u64(v as int)
        },
        Numeric::UnsignedInteger(v) => v as int,
        Numeric::Float(_) => 0,
    }
}

/// The result of combining `existing` with `amount`, added (`subtract` false)
/// or subtracted, in the kind of `amount`, saturating or wrapping.
pub open spec fn combined(existing: Numeric, amount: Numeric, saturating: bool, subtract: bool) -> Numeric {
    match amount {
        Numeric::Integer(a) => {
            let exact = if subtract {
                as_i64_spec(existing, saturating) - a
            } else {
                as_i64_spec(existing, saturating) + a
            };
            Numeric::Integer(
                (if saturating {
                    clamp_i64(exact)
                } else {
                    wrap_i64(exact)
                }) as i64,
            )
        },
        Numeric::UnsignedInteger(a) => {
            let exact = if subtract {
                as_u64_spec(existing, saturating) - a
            } else {
                as_u64_spec(existing, saturating) + a
            };
            Numeric::UnsignedInteger(
                (if saturating {
                    clamp_u64(exact)
                } else {
                    wrap_u64(exact)
                }) as u64,
            )
        },
        Numeric::Float(a) => Numeric::Float(a),
    }
}

/// The sum of `existing` and `amount` in the kind of `amount`.
pub open spec fn incremented(existing: Numeric, amount: Numeric, saturating: bool) -> Numeric {
    combined(existing, amount, saturating, false)
}

/// The difference of `existing` and `amount` in the kind of `amount`.
pub open spec fn decremented(existing: Numeric, amount: Numeric, saturating: bool) -> Numeric {
    combined(existing, amount, saturating, true)
}

/// An integer increment or decrement with `saturating` yields the exact
/// result clamped to the range of the amount's kind, so it never overflows;
/// without `saturating` it yields the exact result plus a multiple of 2^64,
/// that is, it wraps around.
pub proof fn lemma_saturating_or_wrapping(existing: Numeric, amount: Numeric, saturating: bool, subtract: bool)
    requires
        !is_float(existing),
        !is_float(amount),
    ensures
        match (amount, combined(existing, amount, saturating, subtract)) {
            (Numeric::Integer(a), Numeric::Integer(r)) => {
                let exact = if subtract {
                    as_i64_spec(existing, saturating) - a
                } else {
                    as_i64_spec(existing, saturating) + a
                };
                &&& saturating ==> r == clamp_i64(exact)
                &&& !saturating ==> (r - exact) % 0x1_0000_0000_0000_0000 == 0
            },
            (Numeric::UnsignedInteger(a), Numeric::UnsignedInteger(r)) => {
                let exact = if subtract {
                    as_u64_spec(existing, saturating) - a
                } else {
                    as_u64_spec(existing, saturating) + a
                };
                &&& saturating ==> r == clamp_u64(exact)
                &&& !saturating ==> (r - exact) % 0x1_0000_0000_0000_0000 == 0
            },
            _ => false,
        },
{
    let m: int = 0x1_0000_0000_0000_0000;
    match amount {
        Numeric::Integer(a) => {
            let exact = if subtract {
                as_i64_spec(existing, saturating) - a
            } else {
                as_i64_spec(existing, saturating) + a
            };
            assert(i64::MIN <= as_i64_spec(existing, saturating) <= i64::MAX);
            if !saturating {
                let x = exact - i64::MIN;
                vstd::arithmetic::div_mod::lemma_fundamental_div_mod(x, m);
                assert(0 <= x % m < m) by {
                    vstd::arithmetic::div_mod::lemma_mod_bound(x, m);
                }
                let q = -(x / m);
                assert(wrap_i64(exact) - exact == q * m) by (nonlinear_arith)
                    requires
                        x == m * (x / m) + x % m,
                        q == -(x / m),
                        wrap_i64(exact) == x % m + i64::MIN,
                        x == exact - i64::MIN,
                ;
                vstd::arithmetic::div_mod::lemma_mod_multiples_basic(q, m);
            }
        },
        Numeric::UnsignedInteger(a) => {
            let exact = if subtract {
                as_u64_spec(existing, saturating) - a
            } else {
                as_u64_spec(existing, saturating) + a
            };
            assert(0 <= as_u64_spec(existing, saturating) <= u64::MAX);
            if !saturating {
                vstd::arithmetic::div_mod::lemma_fundamental_div_mod(exact, m);
                assert(0 <= exact % m < m) by {
                    vstd::arithmetic::div_mod::lemma_mod_bound(exact, m);
                }
                let q = -(exact / m);
                assert(wrap_u64(exact) - exact == q * m) by (nonlinear_arith)
                    requires
                        exact == m * (exact / m) + exact % m,
                        q == -(exact / m),
                        wrap_u64(exact) == exact % m,
                ;
                vstd::arithmetic::div_mod::lemma_mod_multiples_basic(q, m);
            }
        },
        Numeric::Float(_) => {},
    }
}

impl Numeric {
    /// This number as an `i64`: a `u64` above `i64::MAX` becomes `i64::MAX`
    /// when saturating and wraps around otherwise.
    pub fn as_i64_lossy(&self, saturating: bool) -> (r: i64)
        requires
            !is_float(*self),
        ensures
            r == as_i64_spec(*self, saturating),
    {
        match self {
            Numeric::Integer(v) => *v,
            Numeric::UnsignedInteger(v) => {
                if *v <= i64::MAX as u64 {
                    *v as i64
                } else if saturating {
                    i64::MAX
                } else {
                    let r = (*v - 0x8000_0000_0000_0000u64) as i64 + i64::MIN;
                    assert(r == wrap_i64(*v as int)) by {
                        assert((*v - i64::MIN) == *v as int + 0x8000_0000_0000_0000);
                        assert(((*v as int + 0x8000_0000_0000_0000) % 0x1_0000_0000_0000_0000)
                            == *v as int + 0x8000_0000_0000_0000 - 0x1_0000_0000_0000_0000);
                    }
                    r
                }
            },
            Numeric::Float(_) => 0,
        }
    }

    /// This number as a `u64`: a negative `i64` becomes `0` when saturating
    /// and wraps around otherwise.
    pub fn as_u64_lossy(&self, saturating: bool) -> (r: u64)
        requires
            !is_float(*self),
        ensures
            r == as_u64_spec(*self, saturating),
    {
        match self {
            Numeric::Integer(v) => {
                if *v >= 0 {
                    *v as u64
                } else if saturating {
                    0
                } else {
                    let r = (*v - i64::MIN) as u64 + 0x8000_0000_0000_0000u64;
                    assert(r == wrap_u64(*v as int)) by {
                        assert(((*v as int) % 0x1_0000_0000_0000_0000)
                            == *v as int + 0x1_0000_0000_0000_0000);
                    }
                    r
                }
            },
            Numeric::UnsignedInteger(v) => *v,
            Numeric::Float(_) => 0,
        }
    }
}

fn add_i64(a: i64, b: i64, saturating: bool) -> (r: i64)
    ensures
        r == (if saturating {
            clamp_i64(a + b)
        } else {
            wrap_i64(a + b)
        }),
{
    match a.checked_add(b) {
        Some(sum) => {
            assert(wrap_i64(a + b) == a + b) by {
                assert(0 <= a + b - i64::MIN < 0x1_0000_0000_0000_0000);
            }
            sum
        },
        None => {
            if saturating {
                if b > 0 {
                    i64::MAX
                } else {
                    i64::MIN
                }
            } else {
                let r = a.wrapping_add(b);
                assert(r == wrap_i64(a + b)) by {
                    if a + b > i64::MAX {
                        assert((a + b - i64::MIN) % 0x1_0000_0000_0000_0000
                            == a + b - i64::MIN - 0x1_0000_0000_0000_0000);
                    } else {
                        assert((a + b - i64::MIN) % 0x1_0000_0000_0000_0000
                            == a + b - i64::MIN + 0x1_0000_0000_0000_0000);
                    }
                }
                r
            }
        },
    }
}

fn sub_i64(a: i64, b: i64, saturating: bool) -> (r: i64)
    ensures
        r == (if saturating {
            clamp_i64(a - b)
        } else {
            wrap_i64(a - b)
        }),
{
    match a.checked_sub(b) {
        Some(diff) => {
            assert(wrap_i64(a - b) == a - b) by {
                assert(0 <= a - b - i64::MIN < 0x1_0000_0000_0000_0000);
            }
            diff
        },
        None => {
            if saturating {
                if b < 0 {
                    i64::MAX
                } else {
                    i64::MIN
                }
            } else {
                let r = a.wrapping_sub(b);
                assert(r == wrap_i64(a - b)) by {
                    if a - b > i64::MAX {
                        assert((a - b - i64::MIN) % 0x1_0000_0000_0000_0000
                            == a - b - i64::MIN - 0x1_0000_0000_0000_0000);
                    } else {
                        assert((a - b - i64::MIN) % 0x1_0000_0000_0000_0000
                            == a - b - i64::MIN + 0x1_0000_0000_0000_0000);
                    }
                }
                r
            }
        },
    }
}

fn add_u64(a: u64, b: u64, saturating: bool) -> (r: u64)
    ensures
        r == (if saturating {
            clamp_u64(a + b)
        } else {
            wrap_u64(a + b)
        }),
{
    if saturating {
        a.saturating_add(b)
    } else {
        let r = a.wrapping_add(b);
        assert(r == wrap_u64(a + b)) by {
            if a + b > u64::MAX {
                assert((a + b) % 0x1_0000_0000_0000_0000 == a + b - 0x1_0000_0000_0000_0000);
            } else {
                assert((a + b) % 0x1_0000_0000_0000_0000 == a + b);
            }
        }
        r
    }
}

fn sub_u64(a: u64, b: u64, saturating: bool) -> (r: u64)
    ensures
        r == (if saturating {
            clamp_u64(a - b)
        } else {
            wrap_u64(a - b)
        }),
{
    if saturating {
        a.saturating_sub(b)
    } else {
        let r = a.wrapping_sub(b);
        assert(r == wrap_u64(a - b)) by {
            if a - b < 0 {
                assert((a - b) % 0x1_0000_0000_0000_0000 == a - b + 0x1_0000_0000_0000_0000);
            } else {
                assert((a - b) % 0x1_0000_0000_0000_0000 == a - b);
            }
        }
        r
    }
}

/// Adds `amount` to `existing` in the kind of `amount`: `existing` is first
/// converted to that kind, then the two are added, saturating at the kind's
/// bounds when `saturating` is set and wrapping around otherwise.
pub fn increment(existing: &Numeric, amount: &Numeric, saturating: bool) -> (r: Numeric)
    requires
        !is_float(*existing),
        !is_float(*amount),
    ensures
        r == incremented(*existing, *amount, saturating),
{
    match amount {
        Numeric::Integer(a) => Numeric::Integer(add_i64(existing.as_i64_lossy(saturating), *a, saturating)),
        Numeric::UnsignedInteger(a) => Numeric::UnsignedInteger(
            add_u64(existing.as_u64_lossy(saturating), *a, saturating),
        ),
        Numeric::Float(a) => Numeric::Float(*a),
    }
}

/// Subtracts `amount` from `existing` in the kind of `amount`: `existing` is
/// first converted to that kind, then `amount` is subtracted, saturating at
/// the kind's bounds when `saturating` is set and wrapping around otherwise.
pub fn decrement(existing: &Numeric, amount: &Numeric, saturating: bool) -> (r: Numeric)
    requires
        !is_float(*existing),
        !is_float(*amount),
    ensures
        r == decremented(*existing, *amount, saturating),
{
    match amount {
        Numeric::Integer(a) => Numeric::Integer(sub_i64(existing.as_i64_lossy(saturating), *a, saturating)),
        Numeric::UnsignedInteger(a) => Numeric::UnsignedInteger(
            sub_u64(existing.as_u64_lossy(saturating), *a, saturating),
        ),
        Numeric::Float(a) => Numeric::Float(*a),
    }
}

} // verus!
