//! Docker cache accounting. Running the docker client is outside work; what
//! stands here, verified, is the parsing of its output — sizes like `1.5GB`,
//! the `system df` table, prune reports — and the entries built from them.
use vstd::prelude::*;

use crate::cache_entry::{CacheEntry, CacheKind, PlannedAction};
use crate::config::MergedConfig;
use crate::text::{
    upper_chars, to_chars, upper_chars_exec, is_digit, digit_val, chars_to_int, all_digits,
    has_substring, split_ws, split_ws_exec, split_lines, split_lines_exec, contains_chars,
    parse_u64_chars,
};
use crate::util::binary_available;

verus! {

/// Trailing `B` characters removed, as a size suffix is read.
pub open spec fn strip_trailing_b(s: Seq<char>) -> Seq<char>
    decreases s.len(),
{
    if s.len() > 0 && s.last() == 'B' {
        strip_trailing_b(s.drop_last())
    } else {
        s
    }
}

/// The byte multiplier a size suffix denotes, and how many characters it
/// occupies: `K`, `M`, `G`, `T` or none.
pub open spec fn size_unit(s: Seq<char>) -> int {
    if s.len() > 0 && s.last() == 'K' {
        1024int
    } else if s.len() > 0 && s.last() == 'M' {
        1048576int
    } else if s.len() > 0 && s.last() == 'G' {
        1073741824int
    } else if s.len() > 0 && s.last() == 'T' {
        1099511627776int
    } else {
        1int
    }
}

/// The number part: the suffix character removed when one is present.
pub open spec fn size_digits(s: Seq<char>) -> Seq<char> {
    if s.len() > 0 && (s.last() == 'K' || s.last() == 'M' || s.last() == 'G' || s.last() == 'T') {
        s.drop_last()
    } else {
        s
    }
}

/// One character of a plain decimal number.
pub open spec fn is_digit_or_dot(c: char) -> bool {
    is_digit(c) || c == '.'
}

/// How many dots a number holds.
pub open spec fn count_dots(s: Seq<char>) -> int
    decreases s.len(),
{
    if s.len() == 0 {
        0
    } else {
        count_dots(s.drop_last()) + if s.last() == '.' {
            1int
        } else {
            0int
        }
    }
}

/// A plain decimal number: digits with at most one dot, and at least one
/// digit. (Signs, exponents and named values are not sizes docker prints.)
pub open spec fn valid_decimal(s: Seq<char>) -> bool {
    &&& forall|i: int| 0 <= i < s.len() ==> is_digit_or_dot(#[trigger] s[i])
    &&& count_dots(s) <= 1
    &&& s.len() > count_dots(s)
}

/// The digits of a number with its dot removed, read as an integer.
pub open spec fn mantissa_of(s: Seq<char>) -> int {
    chars_to_int(s.filter(|c: char| c != '.'))
}

/// How many digits follow the dot; zero without a dot.
pub open spec fn scale_of(s: Seq<char>) -> int
    decreases s.len(),
{
    if s.len() == 0 {
        0
    } else if s.first() == '.' {
        s.len() - 1
    } else {
        scale_of(s.drop_first())
    }
}

/// Ten to the `k`.
pub open spec fn pow10(k: int) -> int
    decreases k,
{
    if k <= 0 {
        1
    } else {
        10 * pow10(k - 1)
    }
}

/// What parsing a size string yields: the string upper-cased, trailing `B`s
/// dropped, a binary unit suffix read, and the decimal number scaled by the
/// unit, the result floored and saturated at 64 bits. Numbers whose digits
/// overrun 64 bits or carry more than 18 fractional digits are rejected.
pub open spec fn spec_parse_size(s: Seq<char>) -> Option<int> {
    let t = strip_trailing_b(upper_chars(s));
    let num = size_digits(t);
    let unit = size_unit(t);
    if valid_decimal(num) && mantissa_of(num) <= u64::MAX && scale_of(num) <= 18 {
        let v = mantissa_of(num) * unit / pow10(scale_of(num));
        Some(
            if v > u64::MAX {
                u64::MAX as int
            } else {
                v
            },
        )
    } else {
        None
    }
}

/// What one line of `docker system df` contributes: the third
/// whitespace-separated column read as a size.
pub open spec fn spec_parse_docker_size(line: Seq<char>) -> Option<int> {
    let toks = split_ws(line);
    if toks.len() >= 3 {
        spec_parse_size(toks[2])
    } else {
        None
    }
}

/// The count named by the first `Deleted:` line whose second column is a
/// plain number; zero when no line qualifies.
pub open spec fn line_deleted_count(l: Seq<char>) -> Option<int> {
    let toks = split_ws(l);
    if has_substring(l, "Deleted:"@) && toks.len() >= 2 && toks[1].len() > 0 && all_digits(toks[1])
        && chars_to_int(toks[1]) <= usize::MAX {
        Some(chars_to_int(toks[1]))
    } else {
        None
    }
}

/// The removed-object count in a prune report.
pub open spec fn spec_removed_count(ls: Seq<Seq<char>>) -> int
    decreases ls.len(),
{
    if ls.len() == 0 {
        0
    } else if line_deleted_count(ls.first()) is Some {
        line_deleted_count(ls.first())->0
    } else {
        spec_removed_count(ls.drop_first())
    }
}

/// Docker system information.
#[derive(Debug, Clone)]
pub struct DockerSystemInfo {
    pub images_size: u64,
    pub containers_size: u64,
    pub volumes_size: u64,
    pub build_cache_size: u64,
    pub total_size: u64,
}

/// Docker cleanup result.
#[derive(Debug, Clone)]
pub struct DockerCleanupResult {
    pub images_removed: usize,
    pub containers_removed: usize,
    pub volumes_removed: usize,
    pub build_cache_removed: usize,
    pub total_freed: u64,
}

/// Docker statistics.
#[derive(Debug, Clone)]
pub struct DockerStats {
    pub total_size: u64,
    pub images_size: u64,
    pub containers_size: u64,
    pub volumes_size: u64,
    pub build_cache_size: u64,
    pub available: bool,
}

/// Docker cache manager.
pub struct DockerCacheManager {
    pub config: MergedConfig,
}

impl DockerCacheManager {
    /// Create a new Docker cache manager.
    pub fn new(config: MergedConfig) -> (r: Self)
        ensures
            crate::config::config_view(r.config) == crate::config::config_view(config),
    {
        Self { config }
    }

    /// Whether a docker client is on PATH.
    pub fn is_docker_available() -> bool {
        binary_available("docker")
    }

    /// Parse a size string like `1.5GB` or `800MB` to bytes.
    pub fn parse_size_string(size_str: &str) -> (r: Result<u64, String>)
        ensures
            match r {
                Ok(n) => spec_parse_size(size_str@) == Some(n as int),
                Err(_) => spec_parse_size(size_str@) is None,
            },
    {
        let cs = to_chars(size_str);
        let up = upper_chars_exec(&cs);
        let ghost gu = upper_chars(size_str@);
        // Strip trailing size-suffix byte markers.
        let mut v = up;
        proof {
            assert(v@ == gu);
        }
        while v.len() > 0 && v[v.len() - 1] == 'B'
            invariant
                strip_trailing_b(v@) == strip_trailing_b(gu),
            decreases v@.len(),
        {
            let _ = v.pop();
        }
        let ghost t = v@;
        proof {
            assert(t == strip_trailing_b(gu));
        }
        // Read the unit suffix.
        let unit: u64 = if v.len() > 0 && v[v.len() - 1] == 'K' {
            let _ = v.pop();
            1024
        } else if v.len() > 0 && v[v.len() - 1] == 'M' {
            let _ = v.pop();
            1024 * 1024
        } else if v.len() > 0 && v[v.len() - 1] == 'G' {
            let _ = v.pop();
            1024 * 1024 * 1024
        } else if v.len() > 0 && v[v.len() - 1] == 'T' {
            let _ = v.pop();
            1024 * 1024 * 1024 * 1024
        } else {
            1
        };
        proof {
            assert(unit == size_unit(t));
            assert(v@ == size_digits(t));
        }
        // Parse the decimal number in one pass.
        let n = v.len();
        if n == 0 {
            assert(!valid_decimal(v@));
            return Err("empty size number".to_owned());
        }
        let mut mant: u128 = 0;
        let mut dots: u64 = 0;
        let mut digits: u64 = 0;
        let mut after_dot: u64 = 0;
        let mut i: usize = 0;
        let ghost num = v@;
        proof {
            reveal(Seq::filter);
            assert(num.take(0) =~= Seq::<char>::empty());
            assert(num.take(0).filter(|c: char| c != '.') =~= Seq::<char>::empty());
        }
        while i < n
            invariant
                n == num.len(),
                num == v@,
                t == strip_trailing_b(upper_chars(size_str@)),
                num == size_digits(t),
                i <= n,
                forall|k: int| 0 <= k < i ==> is_digit_or_dot(#[trigger] num[k]),
                dots == count_dots(num.take(i as int)),
                dots <= 1,
                digits == i - dots,
                mant == chars_to_int(num.take(i as int).filter(|c: char| c != '.')),
                mant <= u64::MAX,
                after_dot == (if count_dots(num.take(i as int)) == 0 {
                    0int
                } else {
                    i - (num.take(i as int).len() - scale_of(num.take(i as int)))
                }),
                after_dot <= 18,
                dots == 1 ==> after_dot == scale_of(num.take(i as int)),
                dots == 0 ==> scale_of(num.take(i as int)) == 0,
            decreases n - i,
        {
            let c = v[i];
            proof {
                reveal(Seq::filter);
                assert(num.take(i + 1).drop_last() =~= num.take(i as int));
                assert(num.take(i + 1).last() == num[i as int]);
                lemma_count_dots_take(num, i as int);
                lemma_scale_take(num, i as int);
                let f = num.take(i as int).filter(|c: char| c != '.');
                if num[i as int] != '.' {
                    assert(num.take(i + 1).filter(|c: char| c != '.') == f.push(num[i as int]));
                    assert(f.push(num[i as int]).drop_last() =~= f);
                } else {
                    assert(num.take(i + 1).filter(|c: char| c != '.') == f);
                }
            }
            if c == '.' {
                if dots >= 1 {
                    proof {
                        lemma_count_dots_prefix_le(num, i + 1);
                        assert(count_dots(num) >= 2);
                        assert(!valid_decimal(num));
                    }
                    return Err("malformed size number".to_owned());
                }
                dots = 1;
            } else if '0' <= c && c <= '9' {
                let d: u64 = (c as u8 - '0' as u8) as u64;
                if mant > ((u64::MAX as u128) - d as u128) / 10 {
                    proof {
                        assert(chars_to_int(num.take(i + 1).filter(|c: char| c != '.'))
                            == mant * 10 + d);
                        if forall|k: int| 0 <= k < num.len() ==> is_digit_or_dot(#[trigger] num[k]) {
                            lemma_mantissa_prefix_le(num, i + 1);
                            assert(mantissa_of(num) > u64::MAX);
                        } else {
                            assert(!valid_decimal(num));
                        }
                    }
                    return Err("size number too large".to_owned());
                }
                mant = mant * 10 + d as u128;
                digits = digits + 1;
                if dots == 1 {
                    if after_dot >= 18 {
                        proof {
                            lemma_scale_grows(num, i as int);
                            assert(scale_of(num) > 18);
                        }
                        return Err("size number too precise".to_owned());
                    }
                    after_dot = after_dot + 1;
                }
            } else {
                proof {
                    assert(!is_digit_or_dot(num[i as int]));
                    assert(!valid_decimal(num));
                }
                return Err("malformed size number".to_owned());
            }
            i = i + 1;
        }
        proof {
            assert(num.take(n as int) =~= num);
        }
        if digits == 0 {
            assert(!valid_decimal(num));
            return Err("empty size number".to_owned());
        }
        assert(valid_decimal(num));
        let divisor: u128 = pow10_exec(after_dot);
        proof {
            assert(mant * (unit as u128) <= 0xFFFF_FFFF_FFFF_FFFFu128 * 0x100_0000_0000u128)
                by (nonlinear_arith)
                requires
                    mant <= 0xFFFF_FFFF_FFFF_FFFFu128,
                    0 < unit <= 0x100_0000_0000u64,
            ;
        }
        let value: u128 = mant * (unit as u128) / divisor;
        let r: u64 = if value > u64::MAX as u128 {
            u64::MAX
        } else {
            value as u64
        };
        proof {
            assert(mant * unit == mantissa_of(num) * size_unit(t));
        }
        Ok(r)
    }

    /// Parse one `docker system df` line: the third column as a size.
    pub fn parse_docker_size(line: &str) -> (r: Option<u64>)
        ensures
            match r {
                Some(n) => spec_parse_docker_size(line@) == Some(n as int),
                None => spec_parse_docker_size(line@) is None,
            },
    {
        let cs = to_chars(line);
        let toks = split_ws_exec(&cs);
        if toks.len() >= 3 {
            proof {
                assert(toks@[2]@ == split_ws(line@)[2]);
            }
            match Self::parse_size_string(crate::text::from_chars(&toks[2]).as_str()) {
                Ok(n) => Some(n),
                Err(_) => None,
            }
        } else {
            None
        }
    }

    /// Parse the removed-object count from a prune report: the first
    /// `Deleted:` line whose second column is a plain number names it.
    pub fn parse_removed_count(output: &str) -> (r: usize)
        ensures
            r == spec_removed_count(split_lines(output@)),
    {
        let cs = to_chars(output);
        let lines = split_lines_exec(&cs);
        let n = lines.len();
        let ghost ls = split_lines(output@);
        let needle = to_chars("Deleted:");
        proof {
            assert(ls.skip(0) =~= ls);
        }
        for i in 0..n
            invariant
                n == lines@.len(),
                lines.deep_view() == ls,
                ls == split_lines(output@),
                needle@ == "Deleted:"@,
                spec_removed_count(ls) == spec_removed_count(ls.skip(i as int)),
        {
            proof {
                assert(lines@[i as int]@ == ls[i as int]);
                assert(ls.skip(i as int).first() == ls[i as int]);
                assert(ls.skip(i as int).drop_first() =~= ls.skip(i + 1));
            }
            let line = &lines[i];
            if contains_chars(line, &needle) {
                let toks = split_ws_exec(line);
                if toks.len() >= 2 {
                    proof {
                        assert(toks@[1]@ == split_ws(ls[i as int])[1]);
                    }
                    match parse_u64_chars(&toks[1]) {
                        Some(c) => {
                            if c <= usize::MAX as u64 {
                                proof {
                                    assert(line_deleted_count(ls[i as int]) == Some(c as int));
                                    assert(spec_removed_count(ls.skip(i as int)) == c as int);
                                }
                                return c as usize;
                            }
                        },
                        None => {},
                    }
                }
            }
            proof {
                assert(line_deleted_count(ls[i as int]) is None);
            }
        }
        proof {
            assert(ls.skip(n as int) =~= Seq::<Seq<char>>::empty());
        }
        0
    }

    /// Docker cleanup is always a direct delete operation: there is no
    /// meaningful backup of engine-held state.
    pub fn determine_planned_action(&self) -> (r: PlannedAction)
        ensures
            r == PlannedAction::Delete,
    {
        PlannedAction::Delete
    }

    /// Build the system-usage record from a `docker system df` table: the
    /// last parseable line of each category wins, and the total saturates.
    pub fn parse_system_df(&self, df_text: &str) -> (r: DockerSystemInfo)
        ensures
            r.total_size as int == saturated_sum(
                r.images_size as int + r.containers_size as int + r.volumes_size as int
                    + r.build_cache_size as int,
            ),
    {
        let cs = to_chars(df_text);
        let lines = split_lines_exec(&cs);
        let n = lines.len();
        let mut images_size: u64 = 0;
        let mut containers_size: u64 = 0;
        let mut volumes_size: u64 = 0;
        let mut build_cache_size: u64 = 0;
        let images_marker = to_chars("Images");
        let containers_marker = to_chars("Containers");
        let volumes_marker = to_chars("Local Volumes");
        let build_marker = to_chars("Build Cache");
        for i in 0..n
            invariant
                n == lines@.len(),
        {
            let line = &lines[i];
            let ls = crate::text::from_chars(line);
            if contains_chars(line, &images_marker) {
                match Self::parse_docker_size(ls.as_str()) {
                    Some(sz) => {
                        images_size = sz;
                    },
                    None => {},
                }
            } else if contains_chars(line, &containers_marker) {
                match Self::parse_docker_size(ls.as_str()) {
                    Some(sz) => {
                        containers_size = sz;
                    },
                    None => {},
                }
            } else if contains_chars(line, &volumes_marker) {
                match Self::parse_docker_size(ls.as_str()) {
                    Some(sz) => {
                        volumes_size = sz;
                    },
                    None => {},
                }
            } else if contains_chars(line, &build_marker) {
                match Self::parse_docker_size(ls.as_str()) {
                    Some(sz) => {
                        build_cache_size = sz;
                    },
                    None => {},
                }
            }
        }
        let sum: u128 = images_size as u128 + containers_size as u128 + volumes_size as u128
            + build_cache_size as u128;
        let total_size: u64 = if sum > u64::MAX as u128 {
            u64::MAX
        } else {
            sum as u64
        };
        DockerSystemInfo { images_size, containers_size, volumes_size, build_cache_size, total_size }
    }

    /// Build the cache entries a system-usage record describes: one pseudo
    /// entry per non-empty category, planned for direct deletion.
    pub fn build_docker_entries(&self, info: &DockerSystemInfo, now: i64) -> (r: Vec<CacheEntry>)
        ensures
            forall|j: int| 0 <= j < r@.len() ==> {
                let e = #[trigger] r.deep_view()[j];
                e.kind == CacheKind::Docker && !e.stale && e.last_used == now
                    && e.planned_action == Some(PlannedAction::Delete)
            },
            r@.len() <= 4,
    {
        let mut entries: Vec<CacheEntry> = Vec::new();
        if info.images_size > 0 {
            let e = CacheEntry::new(
                "docker://images".to_owned(),
                CacheKind::Docker,
                info.images_size,
                now,
                false,
            ).with_planned_action(self.determine_planned_action());
            let ghost prev = entries.deep_view();
            let ghost ev = e@;
            entries.push(e);
            proof {
                assert(entries.deep_view() =~~= prev.push(ev));
            }
        }
        if info.containers_size > 0 {
            let e = CacheEntry::new(
                "docker://containers".to_owned(),
                CacheKind::Docker,
                info.containers_size,
                now,
                false,
            ).with_planned_action(self.determine_planned_action());
            let ghost prev = entries.deep_view();
            let ghost ev = e@;
            entries.push(e);
            proof {
                assert(entries.deep_view() =~~= prev.push(ev));
            }
        }
        if info.volumes_size > 0 {
            let e = CacheEntry::new(
                "docker://volumes".to_owned(),
                CacheKind::Docker,
                info.volumes_size,
                now,
                false,
            ).with_planned_action(self.determine_planned_action());
            let ghost prev = entries.deep_view();
            let ghost ev = e@;
            entries.push(e);
            proof {
                assert(entries.deep_view() =~~= prev.push(ev));
            }
        }
        if info.build_cache_size > 0 {
            let e = CacheEntry::new(
                "docker://build-cache".to_owned(),
                CacheKind::Docker,
                info.build_cache_size,
                now,
                false,
            ).with_planned_action(self.determine_planned_action());
            let ghost prev = entries.deep_view();
            let ghost ev = e@;
            entries.push(e);
            proof {
                assert(entries.deep_view() =~~= prev.push(ev));
            }
        }
        entries
    }

    /// Assemble the statistics record from a system-usage reading and the
    /// client's availability.
    pub fn get_docker_stats(&self, info: &DockerSystemInfo, available: bool) -> (r: DockerStats)
        ensures
            r.total_size == info.total_size,
            r.images_size == info.images_size,
            r.containers_size == info.containers_size,
            r.volumes_size == info.volumes_size,
            r.build_cache_size == info.build_cache_size,
            r.available == available,
    {
        DockerStats {
            total_size: info.total_size,
            images_size: info.images_size,
            containers_size: info.containers_size,
            volumes_size: info.volumes_size,
            build_cache_size: info.build_cache_size,
            available,
        }
    }
}

/// A sum capped at 64 bits.
pub open spec fn saturated_sum(v: int) -> int {
    if v > u64::MAX {
        u64::MAX as int
    } else {
        v
    }
}

impl DockerStats {
    /// Get human-readable total size.
    pub fn total_size_human(&self) -> (r: String)
        ensures
            r@ == crate::util::human_size_of(self.total_size),
    {
        crate::util::format_size_decimal(self.total_size)
    }

    /// Get human-readable size by category.
    pub fn size_by_category_human(&self) -> (r: Vec<(String, String)>)
        ensures
            r@.len() == 4,
    {
        let mut m: Vec<(String, String)> = Vec::new();
        m.push(("images".to_owned(), crate::util::format_size_decimal(self.images_size)));
        m.push(("containers".to_owned(), crate::util::format_size_decimal(self.containers_size)));
        m.push(("volumes".to_owned(), crate::util::format_size_decimal(self.volumes_size)));
        m.push(("build_cache".to_owned(), crate::util::format_size_decimal(self.build_cache_size)));
        m
    }
}

fn pow10_exec(k: u64) -> (r: u128)
    requires
        k <= 18,
    ensures
        r == pow10(k as int),
        1 <= r <= 1000000000000000000,
    decreases k,
{
    proof {
        reveal_with_fuel(pow10, 20);
    }
    if k == 0 {
        1
    } else {
        let p = pow10_exec(k - 1);
        proof {
            lemma_pow10_le(k as int - 1, 17);
        }
        10 * p
    }
}

proof fn lemma_pow10_le(k: int, m: int)
    requires
        k <= m,
    ensures
        pow10(k) <= pow10(m),
        pow10(k) >= 1,
    decreases m - k,
{
    if k < m {
        lemma_pow10_le(k, m - 1);
        lemma_pow10_pos(m);
    } else {
        lemma_pow10_pos(k);
    }
}

proof fn lemma_pow10_pos(k: int)
    ensures
        pow10(k) >= 1,
    decreases k,
{
    if k > 0 {
        lemma_pow10_pos(k - 1);
    }
}

proof fn lemma_count_dots_take(s: Seq<char>, i: int)
    requires
        0 <= i < s.len(),
    ensures
        count_dots(s.take(i + 1)) == count_dots(s.take(i)) + if s[i] == '.' {
            1int
        } else {
            0int
        },
{
    assert(s.take(i + 1).drop_last() =~= s.take(i));
    assert(s.take(i + 1).last() == s[i]);
}

proof fn lemma_count_dots_prefix_le(s: Seq<char>, i: int)
    requires
        0 <= i <= s.len(),
    ensures
        count_dots(s.take(i)) <= count_dots(s),
    decreases s.len() - i,
{
    if i < s.len() {
        lemma_count_dots_take(s, i);
        lemma_count_dots_prefix_le(s, i + 1);
    } else {
        assert(s.take(i) =~= s);
    }
}

proof fn lemma_scale_take(s: Seq<char>, i: int)
    requires
        0 <= i < s.len(),
    ensures
        count_dots(s.take(i)) >= 1 ==> scale_of(s.take(i + 1)) == scale_of(s.take(i)) + 1,
        (count_dots(s.take(i)) == 0 && s[i] == '.') ==> scale_of(s.take(i + 1)) == 0,
        count_dots(s.take(i)) == 0 && s[i] != '.' ==> scale_of(s.take(i + 1)) == scale_of(
            s.take(i),
        ),
{
    lemma_scale_front(s.take(i), s.take(i + 1), s[i]);
}

proof fn lemma_scale_front(a: Seq<char>, b: Seq<char>, c: char)
    requires
        b =~= a.push(c),
    ensures
        count_dots(a) >= 1 ==> scale_of(b) == scale_of(a) + 1,
        count_dots(a) == 0 && c == '.' ==> scale_of(b) == 0,
        count_dots(a) == 0 && c != '.' ==> scale_of(b) == scale_of(a),
    decreases a.len(),
{
    if a.len() == 0 {
        assert(b.len() == 1);
        assert(b.first() == c);
        if c == '.' {
            assert(scale_of(b) == b.len() - 1);
        } else {
            assert(b.drop_first() =~= Seq::<char>::empty());
            assert(scale_of(b) == scale_of(b.drop_first()));
            assert(scale_of(b.drop_first()) == 0);
        }
        assert(count_dots(a) == 0);
    } else {
        if a.first() == '.' {
            assert(count_dots(a) >= 1) by {
                lemma_count_dots_first(a);
            }
            assert(b.first() == '.');
            assert(scale_of(b) == b.len() - 1);
            assert(scale_of(a) == a.len() - 1);
        } else {
            assert(b.first() == a.first());
            assert(b.drop_first() =~= a.drop_first().push(c));
            lemma_scale_front(a.drop_first(), b.drop_first(), c);
            lemma_count_dots_drop_first(a);
        }
    }
}

proof fn lemma_count_dots_first(s: Seq<char>)
    requires
        s.len() > 0,
        s.first() == '.',
    ensures
        count_dots(s) >= 1,
    decreases s.len(),
{
    if s.len() == 1 {
        assert(s.last() == s[0]);
        assert(count_dots(s.drop_last()) == 0) by {
            assert(s.drop_last() =~= Seq::<char>::empty());
        }
    } else {
        assert(s.drop_last().first() == s[0]);
        lemma_count_dots_first(s.drop_last());
    }
}

proof fn lemma_count_dots_drop_first(s: Seq<char>)
    requires
        s.len() > 0,
    ensures
        count_dots(s) == count_dots(s.drop_first()) + if s.first() == '.' {
            1int
        } else {
            0int
        },
    decreases s.len(),
{
    if s.len() == 1 {
        assert(s.drop_first() =~= Seq::<char>::empty());
        assert(s.last() == s.first());
        assert(count_dots(s.drop_last()) == 0) by {
            assert(s.drop_last() =~= Seq::<char>::empty());
        }
    } else {
        assert(s.drop_last().len() > 0);
        assert(s.drop_last().first() == s.first());
        lemma_count_dots_drop_first(s.drop_last());
        assert(s.drop_first().drop_last() =~= s.drop_last().drop_first());
        assert(s.drop_first().last() == s.last());
    }
}

proof fn lemma_mantissa_prefix_le(s: Seq<char>, i: int)
    requires
        0 <= i <= s.len(),
        forall|k: int| 0 <= k < s.len() ==> is_digit_or_dot(#[trigger] s[k]),
    ensures
        chars_to_int(s.take(i).filter(|c: char| c != '.')) <= mantissa_of(s),
    decreases s.len() - i,
{
    reveal(Seq::filter);
    if i < s.len() {
        assert(s.take(i + 1).drop_last() =~= s.take(i));
        assert(s.take(i + 1).last() == s[i]);
        let f = s.take(i).filter(|c: char| c != '.');
        lemma_filter_digits(s, i);
        if s[i] != '.' {
            assert(s.take(i + 1).filter(|c: char| c != '.') == f.push(s[i]));
            assert(f.push(s[i]).drop_last() =~= f);
            assert(chars_to_int(f.push(s[i])) == chars_to_int(f) * 10 + digit_val(s[i]));
            assert(is_digit(s[i]));
            assert(digit_val(s[i]) >= 0);
            lemma_nonneg_digits(f);
        } else {
            assert(s.take(i + 1).filter(|c: char| c != '.') == f);
        }
        lemma_mantissa_prefix_le(s, i + 1);
    } else {
        assert(s.take(i) =~= s);
    }
}

proof fn lemma_filter_digits(s: Seq<char>, i: int)
    requires
        0 <= i <= s.len(),
        forall|k: int| 0 <= k < s.len() ==> is_digit_or_dot(#[trigger] s[k]),
    ensures
        all_digits(s.take(i).filter(|c: char| c != '.')),
    decreases i,
{
    reveal(Seq::filter);
    if i > 0 {
        lemma_filter_digits(s, i - 1);
        assert(s.take(i).drop_last() =~= s.take(i - 1));
        assert(s.take(i).last() == s[i - 1]);
        let f = s.take(i - 1).filter(|c: char| c != '.');
        if s[i - 1] != '.' {
            assert(s.take(i).filter(|c: char| c != '.') == f.push(s[i - 1]));
            assert(is_digit(s[i - 1]));
            assert(all_digits(f.push(s[i - 1]))) by {
                assert(forall|j: int| 0 <= j < f.len() ==> f.push(s[i - 1])[j] == #[trigger] f[j]);
            }
        } else {
            assert(s.take(i).filter(|c: char| c != '.') == f);
        }
    } else {
        assert(s.take(0).filter(|c: char| c != '.') =~= Seq::<char>::empty());
    }
}

proof fn lemma_nonneg_digits(f: Seq<char>)
    requires
        all_digits(f),
    ensures
        chars_to_int(f) >= 0,
    decreases f.len(),
{
    if f.len() > 0 {
        assert(all_digits(f.drop_last()));
        lemma_nonneg_digits(f.drop_last());
    }
}

proof fn lemma_scale_grows(s: Seq<char>, i: int)
    requires
        0 <= i < s.len(),
        count_dots(s.take(i)) >= 1,
    ensures
        scale_of(s) >= scale_of(s.take(i)) + (s.len() - i - 1) + if is_digit(s[i]) {
            1int
        } else {
            0int
        },
{
    lemma_scale_suffix(s, i);
}

proof fn lemma_scale_suffix(s: Seq<char>, i: int)
    requires
        0 <= i <= s.len(),
        count_dots(s.take(i)) >= 1,
    ensures
        scale_of(s) >= scale_of(s.take(i)) + (s.len() - i),
    decreases s.len() - i,
{
    if i < s.len() {
        lemma_count_dots_take(s, i);
        lemma_scale_take(s, i);
        lemma_scale_suffix(s, i + 1);
    } else {
        assert(s.take(i) =~= s);
    }
}

} // verus!
