//! Playback and proxy settings of the editor.

use vstd::prelude::*;

verus! {

/// When proxies are made for imported clips.
#[derive(Clone, Copy, Debug, PartialEq, Eq, Structural)]
pub enum AutoProxySetting {
    Off,
    LargeOnly,
    All,
}

impl AutoProxySetting {
    /// The setting a new project starts with.
    pub fn default_setting() -> (r: Self)
        ensures
            r == AutoProxySetting::LargeOnly,
    {
        AutoProxySetting::LargeOnly
    }

    /// The name shown for the setting.
    pub fn display_name(self) -> (r: &'static str)
        ensures
            r@ == match self {
                AutoProxySetting::Off => "Off"@,
                AutoProxySetting::LargeOnly => "Large Only"@,
                AutoProxySetting::All => "All Clips"@,
            },
    {
        match self {
            AutoProxySetting::Off => "Off",
            AutoProxySetting::LargeOnly => "Large Only",
            AutoProxySetting::All => "All Clips",
        }
    }

    /// Whether a clip gets a proxy. `large_media` is what the media probe
    /// says of the clip (too heavy to play on this machine), when the clip
    /// has been probed.
    pub fn should_queue_proxy(self, is_video: bool, large_media: Option<bool>) -> (r: bool)
        ensures
            r == match self {
                AutoProxySetting::Off => false,
                AutoProxySetting::All => is_video,
                AutoProxySetting::LargeOnly => is_video && large_media == Some(true),
            },
    {
        match self {
            AutoProxySetting::Off => false,
            AutoProxySetting::All => is_video,
            AutoProxySetting::LargeOnly => is_video && match large_media {
                Some(large) => large,
                None => false,
            },
        }
    }
}

/// The resolution the viewer renders at.
#[derive(Clone, Copy, Debug, PartialEq, Eq, Structural)]
pub enum ViewerScale {
    Full,
    Half,
    Quarter,
}

impl ViewerScale {
    /// The label shown for the scale.
    pub fn label(self) -> (r: &'static str)
        ensures
            r@ == match self {
                ViewerScale::Full => "100%"@,
                ViewerScale::Half => "50%"@,
                ViewerScale::Quarter => "25%"@,
            },
    {
        match self {
            ViewerScale::Full => "100%",
            ViewerScale::Half => "50%",
            ViewerScale::Quarter => "25%",
        }
    }
}

/// The value of a run of decimal digits.
pub open spec fn digits_value(s: Seq<char>) -> nat
    decreases s.len(),
{
    if s.len() == 0 {
        0
    } else {
        digits_value(s.drop_last()) * 10 + ((s.last() as u32) - ('0' as u32)) as nat
    }
}

/// Every character is an ASCII digit.
pub open spec fn all_digits(s: Seq<char>) -> bool {
    forall|i: int| 0 <= i < s.len() ==> '0' <= #[trigger] s[i] <= '9'
}

/// `str::parse::<usize>`: an optional `+`, then one or more ASCII digits,
/// whose value fits.
pub open spec fn parsed_usize(s: Seq<char>) -> Option<nat> {
    let body = if s.len() > 0 && s[0] == '+' {
        s.drop_first()
    } else {
        s
    };
    if body.len() > 0 && all_digits(body) && digits_value(body) <= usize::MAX {
        Some(digits_value(body))
    } else {
        None
    }
}

/// `str::parse::<usize>`; see `parsed_usize`.
pub fn parse_usize(s: &str) -> (r: Option<usize>)
    ensures
        match parsed_usize(s@) {
            Some(v) => r == Some(v as usize),
            None => r is None,
        },
{
    let chars = crate::text::chars_of(s);
    let start: usize = if chars.len() > 0 && chars[0] == '+' {
        1
    } else {
        0
    };
    let ghost body = chars@.subrange(start as int, chars@.len() as int);
    proof {
        if start == 1 {
            assert(body =~= s@.drop_first());
        } else {
            assert(body =~= s@);
        }
    }
    if start >= chars.len() {
        return None;
    }
    let mut value: usize = 0;
    let mut i: usize = start;
    while i < chars.len()
        invariant
            start <= i <= chars@.len(),
            chars@ == s@,
            start == (if s@.len() > 0 && s@[0] == '+' { 1usize } else { 0usize }),
            body == chars@.subrange(start as int, chars@.len() as int),
            body == (if s@.len() > 0 && s@[0] == '+' { s@.drop_first() } else { s@ }),
            all_digits(chars@.subrange(start as int, i as int)),
            value as nat == digits_value(chars@.subrange(start as int, i as int)),
        decreases chars@.len() - i,
    {
        let c = chars[i];
        let ghost pre = chars@.subrange(start as int, i as int);
        let ghost next = chars@.subrange(start as int, i + 1);
        assert(next.drop_last() =~= pre);
        assert(next.last() == c);
        if c < '0' || c > '9' {
            assert(!all_digits(body)) by {
                assert(body[i - start] == c);
            }
            return None;
        }
        let d = ((c as u32) - ('0' as u32)) as usize;
        match value.checked_mul(10) {
            Some(m) => match m.checked_add(d) {
                Some(v) => {
                    value = v;
                },
                None => {
                    proof {
                        lemma_digits_prefix_bound(body, i + 1 - start);
                        assert(body.subrange(0, i + 1 - start) =~= next);
                        assert(digits_value(next) == digits_value(pre) * 10 + ((c as u32) - ('0' as u32)) as nat);
                        assert(digits_value(next) > usize::MAX);
                    }
                    return None;
                },
            },
            None => {
                proof {
                    lemma_digits_prefix_bound(body, i + 1 - start);
                    assert(body.subrange(0, i + 1 - start) =~= next);
                    assert(digits_value(next) >= value * 10) by (nonlinear_arith)
                        requires
                            digits_value(next) == digits_value(pre) * 10 + ((c as u32) - ('0' as u32)) as nat,
                            value as nat == digits_value(pre),
                    ;
                }
                return None;
            },
        }
        assert(all_digits(next)) by {
            assert forall|k: int| 0 <= k < next.len() implies '0' <= #[trigger] next[k] <= '9' by {
                if k < pre.len() {
                    assert(next[k] == pre[k]);
                }
            }
        }
        i = i + 1;
    }
    assert(chars@.subrange(start as int, i as int) =~= body);
    Some(value)
}

/// A prefix of a run of digits is worth no more than the whole run.
proof fn lemma_digits_prefix_bound(s: Seq<char>, k: int)
    requires
        0 <= k <= s.len(),
    ensures
        all_digits(s) ==> digits_value(s.subrange(0, k)) <= digits_value(s),
    decreases s.len() - k,
{
    if k < s.len() {
        lemma_digits_prefix_bound(s, k + 1);
        let a = s.subrange(0, k);
        let b = s.subrange(0, k + 1);
        assert(b.drop_last() =~= a);
        if all_digits(s) {
            assert('0' <= s[k] <= '9');
            assert(b.last() == s[k]);
        }
    } else {
        assert(s.subrange(0, k) =~= s);
    }
}

/// How many optimized-media jobs may run at once: the
/// `GAUSIAN_CACHE_MAX_JOBS` value when it parses (at least one), else one
/// less than the processors (at least one).
pub fn cache_max_jobs(env_value: Option<&str>, cpus: usize) -> (r: usize)
    ensures
        r == match env_value {
            Some(raw) => match parsed_usize(raw@) {
                Some(v) => if v >= 1 { v as usize } else { 1usize },
                None => if cpus >= 2 { (cpus - 1) as usize } else { 1usize },
            },
            None => if cpus >= 2 { (cpus - 1) as usize } else { 1usize },
        },
{
    let default: usize = if cpus >= 2 {
        cpus - 1
    } else {
        1
    };
    match env_value {
        Some(raw) => match parse_usize(raw) {
            Some(v) => if v >= 1 {
                v
            } else {
                1
            },
            None => default,
        },
        None => default,
    }
}

} // verus!
