//! What a dashboard shows: numbers, waves and rows as text.

use vstd::prelude::*;
use super::{AppView, ContextView, DashboardApp, DashboardContext, RecentTarget, RowView,
    RECENT_DOMAIN_STATUS_WIDTH, ROUTE_STAT_LABEL_WIDTH};
use crate::ip::{ip_value, parse_ip};
use crate::num::{decimal, parse_unsigned, to_decimal, to_two_digits, two_digits, unsigned_value};
use crate::telemetry::snapshot::{default_detail, recent_domain_default_detail};
use crate::text::{
    after_prefix, begins_with, cat, cat3, lines, lines_of, opt_view, pad_right, padded, same, split,
    split_on, starts_with, strip_prefix, trim, trimmed, views, words, words_of,
};

verus! {

// ---------------------------------------------------------------------------
// Numbers

/// The distance of the doubles around a number.
pub open spec fn double_step(n: int) -> int {
    if n < 0x20000000000000 {
        1
    } else if n < 0x40000000000000 {
        2
    } else if n < 0x80000000000000 {
        4
    } else if n < 0x100000000000000 {
        8
    } else if n < 0x200000000000000 {
        16
    } else if n < 0x400000000000000 {
        32
    } else if n < 0x800000000000000 {
        64
    } else if n < 0x1000000000000000 {
        128
    } else if n < 0x2000000000000000 {
        256
    } else if n < 0x4000000000000000 {
        512
    } else if n < 0x8000000000000000 {
        1024
    } else {
        2048
    }
}

/// `n / d`, rounded to the nearest number, and to the even one of two that are
/// equally near.
pub open spec fn nearest(n: int, d: int) -> int {
    let q = n / d;
    let r = n % d;
    if 2 * r < d || (2 * r == d && q % 2 == 0) {
        q
    } else {
        q + 1
    }
}

/// The double that is nearest to a number.
pub open spec fn as_double(n: int) -> int {
    nearest(n, double_step(n)) * double_step(n)
}

/// A number of tenths.
pub open spec fn tenths_text(n: int) -> Seq<char> {
    decimal((n / 10) as nat) + "."@ + decimal((n % 10) as nat)
}

/// A number of bytes in the largest unit that it fills, with one digit behind
/// the point.
pub open spec fn bytes_text(bytes: u64) -> Seq<char> {
    let v = as_double(bytes as int);
    if v < 0x400 {
        decimal(bytes as nat) + " B"@
    } else if v < 0x100000 {
        tenths_text(nearest(10 * v, 0x400)) + " KiB"@
    } else if v < 0x40000000 {
        tenths_text(nearest(10 * v, 0x100000)) + " MiB"@
    } else if v < 0x10000000000 {
        tenths_text(nearest(10 * v, 0x40000000)) + " GiB"@
    } else {
        tenths_text(nearest(10 * v, 0x10000000000)) + " TiB"@
    }
}

fn step_of(n: u64) -> (r: u64)
    ensures
        r == double_step(n as int),
{
    if n < 0x20000000000000 {
        1
    } else if n < 0x40000000000000 {
        2
    } else if n < 0x80000000000000 {
        4
    } else if n < 0x100000000000000 {
        8
    } else if n < 0x200000000000000 {
        16
    } else if n < 0x400000000000000 {
        32
    } else if n < 0x800000000000000 {
        64
    } else if n < 0x1000000000000000 {
        128
    } else if n < 0x2000000000000000 {
        256
    } else if n < 0x4000000000000000 {
        512
    } else if n < 0x8000000000000000 {
        1024
    } else {
        2048
    }
}

fn round_even(n: u128, d: u128) -> (r: u128)
    requires
        0 < d <= 0x10000000000,
        n <= 0xffffffffffffffffffffffff,
    ensures
        r == nearest(n as int, d as int),
        r <= n + 1,
{
    let q: u128 = n / d;
    let rest: u128 = n % d;
    proof {
        assert(q <= n) by (nonlinear_arith)
            requires
                q == n / d,
                d > 0,
        ;
    }
    if 2 * rest < d || (2 * rest == d && q % 2 == 0) {
        q
    } else {
        q + 1
    }
}

fn show_tenths(n: u128, unit: &str) -> (r: String)
    requires
        n <= u64::MAX,
    ensures
        r@ == tenths_text(n as int) + unit@,
{
    let n: u64 = n as u64;
    let whole = to_decimal(n / 10);
    let part = to_decimal(n % 10);
    cat(cat3(whole.as_str(), ".", part.as_str()).as_str(), unit)
}

/// A rounded quotient is small where the dividend is.
proof fn lemma_nearest_small(n: int, d: int, most: int)
    requires
        d > 0,
        0 <= n < d * most,
    ensures
        nearest(n, d) <= most,
{
    assert(n / d < most) by (nonlinear_arith)
        requires
            d > 0,
            0 <= n < d * most,
    ;
}

/// A number of bytes in the largest unit that it fills.
pub fn format_bytes(bytes: u64) -> (r: String)
    ensures
        r@ == bytes_text(bytes),
{
    let step: u64 = step_of(bytes);
    let q: u128 = round_even(bytes as u128, step as u128);
    proof {
        assert(q * step <= 0x10000000000000000) by {
            if step == 2048 {
                assert(q * step <= 0x10000000000000000) by (nonlinear_arith)
                    requires
                        q <= 0x20000000000000,
                        step == 2048,
                ;
            } else {
                assert(q * step <= 0x40000000000000 * 1024) by (nonlinear_arith)
                    requires
                        q <= 0x40000000000000,
                        step <= 1024,
                ;
            }
        }
    }
    let v: u128 = q * step as u128;
    if v < 0x400 {
        cat(to_decimal(bytes).as_str(), " B")
    } else if v < 0x100000 {
        proof {
            lemma_nearest_small(10 * v, 0x400, 0x2801);
        }
        show_tenths(round_even(10 * v, 0x400), " KiB")
    } else if v < 0x40000000 {
        proof {
            lemma_nearest_small(10 * v, 0x100000, 0x2801);
        }
        show_tenths(round_even(10 * v, 0x100000), " MiB")
    } else if v < 0x10000000000 {
        proof {
            lemma_nearest_small(10 * v, 0x40000000, 0x2801);
        }
        show_tenths(round_even(10 * v, 0x40000000), " GiB")
    } else {
        proof {
            lemma_nearest_small(10 * v, 0x10000000000, 0x10000000);
        }
        show_tenths(round_even(10 * v, 0x10000000000), " TiB")
    }
}

/// A number of seconds as hours, minutes and seconds.
pub open spec fn uptime_text(secs: u64) -> Seq<char> {
    let tail = two_digits((secs / 60 % 60) as nat) + "m "@ + two_digits((secs % 60) as nat) + "s"@;
    if secs / 3600 > 0 {
        decimal((secs / 3600) as nat) + "h "@ + tail
    } else {
        tail
    }
}

/// A number of seconds as hours, minutes and seconds.
pub fn format_uptime(secs: u64) -> (r: String)
    ensures
        r@ == uptime_text(secs),
{
    let minutes = to_two_digits(secs / 60 % 60);
    let seconds = to_two_digits(secs % 60);
    let tail = cat(cat3(minutes.as_str(), "m ", seconds.as_str()).as_str(), "s");
    if secs / 3600 > 0 {
        let hours = to_decimal(secs / 3600);
        cat3(hours.as_str(), "h ", tail.as_str())
    } else {
        tail
    }
}

// ---------------------------------------------------------------------------
// Waves

/// The largest of some numbers, or 0.
pub open spec fn peak(s: Seq<u64>) -> u64
    decreases s.len(),
{
    if s.len() == 0 {
        0
    } else if s.last() > peak(s.drop_last()) {
        s.last()
    } else {
        peak(s.drop_last())
    }
}

/// How many of some numbers are more than 0.
pub open spec fn active(s: Seq<u64>) -> nat
    decreases s.len(),
{
    if s.len() == 0 {
        0
    } else {
        active(s.drop_last()) + if s.last() > 0 {
            1nat
        } else {
            0nat
        }
    }
}

/// The largest of the numbers from `from` to before `to`, or 0.
fn peak_between(history: &Vec<u64>, from: usize, to: usize) -> (r: u64)
    requires
        from <= to <= history.len(),
    ensures
        r == peak(history@.subrange(from as int, to as int)),
{
    let mut best: u64 = 0;
    let mut i: usize = from;
    assert(history@.subrange(from as int, i as int).len() == 0);
    while i < to
        invariant
            from <= i <= to <= history.len(),
            best == peak(history@.subrange(from as int, i as int)),
        decreases to - i,
    {
        let value: u64 = history[i];
        if value > best {
            best = value;
        }
        i = i + 1;
        assert(history@.subrange(from as int, i as int).drop_last() =~= history@.subrange(
            from as int,
            i - 1,
        ));
    }
    best
}

/// What a column of a wave shows: the second that falls on it, or the largest
/// of those that do.
pub open spec fn column(history: Seq<u64>, width: int, c: int) -> u64 {
    let n = history.len() as int;
    let start = c * n / width;
    if n == 0 {
        0
    } else if width >= n {
        history[start]
    } else {
        peak(history.subrange(start, (c + 1) * n / width))
    }
}

/// The columns of a wave.
pub open spec fn wave(history: Seq<u64>, width: int) -> Seq<u64> {
    Seq::new(width as nat, |c: int| column(history, width, c))
}

/// A column lies inside the history, and columns of a narrow wave are not empty.
proof fn lemma_column(n: int, width: int, c: int)
    requires
        n > 0,
        0 <= c < width,
    ensures
        0 <= c * n / width < n,
        c * n / width <= (c + 1) * n / width <= n,
        width <= n ==> c * n / width < (c + 1) * n / width,
{
    assert(0 <= c * n / width < n) by (nonlinear_arith)
        requires
            n > 0,
            0 <= c < width,
    ;
    assert(c * n / width <= (c + 1) * n / width <= n) by (nonlinear_arith)
        requires
            n > 0,
            0 <= c < width,
    ;
    if width <= n {
        assert((c + 1) * n == c * n + n) by (nonlinear_arith);
        let x = c * n;
        assert(x / width < (x + n) / width) by (nonlinear_arith)
            requires
                0 < width <= n,
                x >= 0,
        ;
        assert(x >= 0) by (nonlinear_arith)
            requires
                x == c * n,
                c >= 0,
                n > 0,
        ;
    }
}

/// The columns of a wave.
pub fn fit_wave_data_to_width(history: &Vec<u64>, width: usize) -> (r: Vec<u64>)
    ensures
        r@ == wave(history@, width as int),
{
    let mut out: Vec<u64> = Vec::new();
    let n: usize = history.len();
    let mut c: usize = 0;
    while c < width
        invariant
            n == history.len(),
            c <= width,
            out@ == wave(history@, width as int).take(c as int),
        decreases width - c,
    {
        let value: u64 = if n == 0 {
            0
        } else {
            proof {
                lemma_column(n as int, width as int, c as int);
                assert(0 <= c * n <= usize::MAX * usize::MAX) by (nonlinear_arith)
                    requires
                        0 <= c <= usize::MAX,
                        0 <= n <= usize::MAX,
                ;
                assert(0 <= (c + 1) * n <= usize::MAX * usize::MAX) by (nonlinear_arith)
                    requires
                        0 <= c < usize::MAX,
                        0 <= n <= usize::MAX,
                ;
                assert(usize::MAX * usize::MAX <= u128::MAX) by (nonlinear_arith)
                    requires
                        usize::MAX <= 0xffffffffffffffff,
                ;
            }
            let start: u128 = c as u128 * n as u128 / width as u128;
            if width >= n {
                history[start as usize]
            } else {
                let end: u128 = (c as u128 + 1) * n as u128 / width as u128;
                peak_between(history, start as usize, end as usize)
            }
        };
        assert(value == wave(history@, width as int)[c as int]);
        out.push(value);
        c = c + 1;
        assert(wave(history@, width as int).take(c as int) =~= wave(
            history@,
            width as int,
        ).take(c - 1).push(value));
    }
    assert(wave(history@, width as int).take(c as int) =~= wave(history@, width as int));
    out
}

/// What is said of a wave.
pub open spec fn wave_text(label: Seq<char>, history: Seq<u64>) -> Seq<char> {
    let current = if history.len() > 0 {
        history.last()
    } else {
        0
    };
    label + " · "@ + bytes_text(current) + "/s now · "@ + bytes_text(peak(history))
        + "/s peak · active "@ + decimal(active(history)) + "/"@ + decimal(history.len())
}

/// What is said of a wave.
pub fn wave_title(label: &str, history: &Vec<u64>) -> (r: String)
    ensures
        r@ == wave_text(label@, history@),
{
    let n: usize = history.len();
    let current: u64 = if n > 0 { history[n - 1] } else { 0 };
    let most: u64 = peak_between(history, 0, n);
    assert(history@.subrange(0, n as int) =~= history@);
    let mut busy: u64 = 0;
    let mut i: usize = 0;
    while i < n
        invariant
            n == history.len(),
            i <= n,
            busy == active(history@.take(i as int)),
            busy <= i,
        decreases n - i,
    {
        if history[i] > 0 {
            busy = busy + 1;
        }
        i = i + 1;
        assert(history@.take(i as int).drop_last() =~= history@.take(i - 1));
    }
    assert(history@.take(n as int) =~= history@);
    let now = format_bytes(current);
    let top = format_bytes(most);
    let head = cat3(cat3(label, " · ", now.as_str()).as_str(), "/s now · ", top.as_str());
    let middle = cat3(head.as_str(), "/s peak · active ", to_decimal(busy).as_str());
    cat3(middle.as_str(), "/", to_decimal(n as u64).as_str())
}

// ---------------------------------------------------------------------------
// Rows

/// The label of a count of routes.
pub fn route_stat_label(label: &str) -> (r: String)
    ensures
        r@ == padded(label@, ROUTE_STAT_LABEL_WIDTH as int),
{
    pad_right(label, ROUTE_STAT_LABEL_WIDTH)
}

/// Whether the rows are questions for names.
pub open spec fn shows_domains(c: ContextView) -> bool {
    c.mode_label == "wg"@ || begins_with(c.command_label, "wg-"@)
}

/// Whether the rows are questions for names.
pub fn recent_targets_are_domain_events(context: &DashboardContext) -> (r: bool)
    ensures
        r == shows_domains(context@),
{
    same(context.mode_label.as_str(), "wg") || starts_with(context.command_label.as_str(), "wg-")
}

/// What stands above the rows.
pub fn recent_targets_title(_context: &DashboardContext) -> (r: &'static str)
    ensures
        r@ == "Recent Domains"@,
{
    "Recent Domains"
}

/// What stands above what happened.
pub fn recent_targets_activity_header(context: &DashboardContext) -> (r: &'static str)
    ensures
        r@ == if shows_domains(context@) {
            "Resolved"@
        } else {
            "Up / Down"@
        },
{
    if recent_targets_are_domain_events(context) {
        "Resolved"
    } else {
        "Up / Down"
    }
}

/// What stands above the targets.
pub fn recent_targets_link_header(context: &DashboardContext) -> (r: &'static str)
    ensures
        r@ == if shows_domains(context@) {
            "Domain"@
        } else {
            "Link"@
        },
{
    if recent_targets_are_domain_events(context) {
        "Domain"
    } else {
        "Link"
    }
}

/// Whether a row is a question for a name.
pub open spec fn is_domain_row(row: RowView, c: ContextView) -> bool {
    shows_domains(c) || begins_with(row.link, "dns://"@)
}

fn row_is_domain(item: &RecentTarget, context: &DashboardContext) -> (r: bool)
    ensures
        r == is_domain_row(item@, context@),
{
    recent_targets_are_domain_events(context) || starts_with(item.link.as_str(), "dns://")
}

/// What a route of a question is called.
pub open spec fn domain_route(route: Seq<char>) -> Seq<char> {
    if route == "wg-dns-direct"@ || route == "direct"@ {
        "direct"@
    } else if route == "wg-dns-block"@ || route == "block"@ {
        "block"@
    } else if route == "wg-dns"@ || route == "wg-dns-remote"@ || route == "remote"@ {
        "proxy"@
    } else {
        route
    }
}

fn recent_domain_route_label(route: &str) -> (r: String)
    ensures
        r@ == domain_route(route@),
{
    if same(route, "wg-dns-direct") || same(route, "direct") {
        "direct".to_owned()
    } else if same(route, "wg-dns-block") || same(route, "block") {
        "block".to_owned()
    } else if same(route, "wg-dns") || same(route, "wg-dns-remote") || same(route, "remote") {
        "proxy".to_owned()
    } else {
        route.to_owned()
    }
}

/// The route of a row.
pub fn recent_target_route(item: &RecentTarget, context: &DashboardContext) -> (r: String)
    ensures
        r@ == if is_domain_row(item@, context@) {
            domain_route(item@.route)
        } else {
            item@.route
        },
{
    if row_is_domain(item, context) {
        recent_domain_route_label(item.route.as_str())
    } else {
        item.route.clone()
    }
}

/// The target of a row.
pub fn recent_target_link(item: &RecentTarget, context: &DashboardContext) -> (r: String)
    ensures
        r@ == if is_domain_row(item@, context@) {
            match after_prefix(item@.link, "dns://"@) {
                Some(rest) => rest,
                None => item@.link,
            }
        } else {
            item@.link
        },
{
    if row_is_domain(item, context) {
        match strip_prefix(item.link.as_str(), "dns://") {
            Some(rest) => rest,
            None => item.link.clone(),
        }
    } else {
        item.link.clone()
    }
}

/// Whether a piece of what is said of a name is an address.
pub open spec fn is_address(piece: Seq<char>) -> bool {
    let part = trimmed(piece);
    part.len() > 0 && part != "..."@ && ip_value(part) is Some
}

/// Whether what is said of a name holds an address.
pub open spec fn has_address(detail: Seq<char>) -> bool {
    exists|i: int| 0 <= i < split(detail, ", "@).len() && is_address(
        #[trigger] split(detail, ", "@)[i],
    )
}

fn resolved_detail_has_ip(detail: &str) -> (r: bool)
    ensures
        r == has_address(detail@),
{
    proof {
        reveal_strlit(", ");
    }
    let parts = split_on(detail, ", ");
    let mut i: usize = 0;
    while i < parts.len()
        invariant
            i <= parts.len(),
            views(parts@) == split(detail@, ", "@),
            forall|k: int| 0 <= k < i ==> !is_address(#[trigger] split(detail@, ", "@)[k]),
        decreases parts.len() - i,
    {
        let part = trim(parts[i].as_str());
        assert(views(parts@)[i as int] == parts@[i as int]@);
        if !part.as_str().is_empty() && !same(part.as_str(), "...") && parse_ip(
            part.as_str(),
        ).is_some() {
            assert(is_address(split(detail@, ", "@)[i as int]));
            return true;
        }
        i = i + 1;
    }
    false
}

/// What is said of a name, and how often it was asked for unless its address is
/// known.
pub open spec fn domain_detail(row: RowView) -> Seq<char> {
    let detail = if row.detail.len() == 0 {
        default_detail(row.route)
    } else {
        row.detail
    };
    if has_address(detail) {
        detail
    } else if row.repeat_count > 1 {
        padded(detail, RECENT_DOMAIN_STATUS_WIDTH as int) + " x"@ + decimal(
            row.repeat_count as nat,
        )
    } else {
        padded(detail, RECENT_DOMAIN_STATUS_WIDTH as int)
    }
}

fn recent_domain_detail(item: &RecentTarget) -> (r: String)
    ensures
        r@ == domain_detail(item@),
{
    let detail = if item.detail.as_str().is_empty() {
        recent_domain_default_detail(item.route.as_str())
    } else {
        item.detail.clone()
    };
    if resolved_detail_has_ip(detail.as_str()) {
        detail
    } else {
        let wide = pad_right(detail.as_str(), RECENT_DOMAIN_STATUS_WIDTH);
        if item.repeat_count > 1 {
            cat3(wide.as_str(), " x", to_decimal(item.repeat_count).as_str())
        } else {
            wide
        }
    }
}

/// What happened to the target of a row.
pub fn recent_target_activity(item: &RecentTarget, context: &DashboardContext) -> (r: String)
    ensures
        r@ == if is_domain_row(item@, context@) {
            domain_detail(item@)
        } else {
            bytes_text(item@.uploaded) + " / "@ + bytes_text(item@.downloaded)
        },
{
    if row_is_domain(item, context) {
        recent_domain_detail(item)
    } else {
        let up = format_bytes(item.uploaded);
        let down = format_bytes(item.downloaded);
        cat3(up.as_str(), " / ", down.as_str())
    }
}

/// How wide a column is.
#[derive(Clone, Copy, Debug, PartialEq, Eq, Structural)]
pub enum Width {
    /// Exactly so wide.
    Length(u16),
    /// At least so wide.
    Min(u16),
}

/// How wide the columns of the rows are.
pub fn recent_targets_widths() -> (r: [Width; 4])
    ensures
        r@ == seq![Width::Length(8), Width::Length(10), Width::Min(16), Width::Length(24)],
{
    let r = [Width::Length(8), Width::Length(10), Width::Min(16), Width::Length(24)];
    assert(r@ =~= seq![Width::Length(8), Width::Length(10), Width::Min(16), Width::Length(24)]);
    r
}

// ---------------------------------------------------------------------------
// The overview

/// Labels with what stands behind them.
pub open spec fn pairs(v: Seq<(&'static str, String)>) -> Seq<(Seq<char>, Seq<char>)> {
    v.map_values(|p: (&'static str, String)| (p.0@, p.1@))
}

/// A text, or a dash.
pub open spec fn or_dash(text: Option<Seq<char>>) -> Seq<char> {
    match text {
        Some(t) => t,
        None => "-"@,
    }
}

fn dash(text: &Option<String>) -> (r: String)
    ensures
        r@ == or_dash(opt_view(*text)),
{
    match text {
        Some(t) => t.clone(),
        None => "-".to_owned(),
    }
}

/// Where a program listens and what is behind it.
pub fn endpoint_fields(context: &DashboardContext) -> (r: Vec<(&'static str, String)>)
    ensures
        pairs(r@) == if context@.command_label == "server"@ {
            seq![("listen "@, or_dash(context@.listen)), ("path "@, or_dash(context@.path))]
        } else {
            seq![
                ("listen "@, or_dash(context@.listen)),
                ("upstream "@, or_dash(context@.upstream)),
                ("path "@, or_dash(context@.path)),
            ]
        },
{
    let mut out: Vec<(&'static str, String)> = Vec::new();
    out.push(("listen ", dash(&context.listen)));
    let server = same(context.command_label.as_str(), "server");
    if !server {
        out.push(("upstream ", dash(&context.upstream)));
    }
    out.push(("path ", dash(&context.path)));
    proof {
        if server {
            assert(pairs(out@) =~= seq![
                ("listen "@, or_dash(context@.listen)),
                ("path "@, or_dash(context@.path)),
            ]);
        } else {
            assert(pairs(out@) =~= seq![
                ("listen "@, or_dash(context@.listen)),
                ("upstream "@, or_dash(context@.upstream)),
                ("path "@, or_dash(context@.path)),
            ]);
        }
    }
    out
}

/// How long a program runs, in whole seconds.
pub open spec fn uptime_secs(app: AppView, now: u64) -> int {
    if now >= app.started_at {
        (now - app.started_at) / 1000
    } else {
        0
    }
}

/// What a program does, and for how long.
pub fn mode_fields(app: &DashboardApp, now: u64) -> (r: Vec<(&'static str, String)>)
    requires
        app.wf(),
        uptime_secs(app@, now) <= u64::MAX,
    ensures
        pairs(r@) == seq![
            ("mode "@, app@.context.mode_label),
            ("traffic "@, app@.context.traffic_state.name()),
            ("uptime "@, uptime_text(uptime_secs(app@, now) as u64)),
        ],
{
    let secs: i128 = if now as i128 >= app.started_at {
        (now as i128 - app.started_at) / 1000
    } else {
        0
    };
    let mut out: Vec<(&'static str, String)> = Vec::new();
    out.push(("mode ", app.context.mode_label.clone()));
    out.push(("traffic ", app.context.traffic_state.as_str().to_owned()));
    out.push(("uptime ", format_uptime(secs as u64)));
    assert(pairs(out@) =~= seq![
        ("mode "@, app@.context.mode_label),
        ("traffic "@, app@.context.traffic_state.name()),
        ("uptime "@, uptime_text(uptime_secs(app@, now) as u64)),
    ]);
    out
}

/// What a process takes.
pub fn process_fields(app: &DashboardApp) -> (r: Vec<(&'static str, String)>)
    ensures
        pairs(r@) == seq![
            ("pid "@, decimal(app@.pid as nat)),
            ("memory "@, bytes_text(app@.process_stats.memory_bytes)),
            (
                "threads "@,
                match app@.process_stats.threads {
                    Some(n) => decimal(n as nat),
                    None => "-"@,
                },
            ),
            ("log "@, app@.context.log_file),
        ],
{
    let mut out: Vec<(&'static str, String)> = Vec::new();
    out.push(("pid ", to_decimal(app.pid as u64)));
    out.push(("memory ", format_bytes(app.process_stats.memory_bytes)));
    let threads = match app.process_stats.threads {
        Some(n) => to_decimal(n as u64),
        None => "-".to_owned(),
    };
    out.push(("threads ", threads));
    out.push(("log ", app.context.log_file.clone()));
    assert(pairs(out@) =~= seq![
        ("pid "@, decimal(app@.pid as nat)),
        ("memory "@, bytes_text(app@.process_stats.memory_bytes)),
        (
            "threads "@,
            match app@.process_stats.threads {
                Some(n) => decimal(n as nat),
                None => "-"@,
            },
        ),
        ("log "@, app@.context.log_file),
    ]);
    out
}

// ---------------------------------------------------------------------------
// Processes

/// The first number at the start of a line.
pub open spec fn first_number(lines: Seq<Seq<char>>) -> Option<int>
    decreases lines.len(),
{
    if lines.len() == 0 {
        None
    } else {
        let w = words_of(lines[0]);
        if w.len() > 0 && unsigned_value(w[0], u64::MAX as int) is Some {
            unsigned_value(w[0], u64::MAX as int)
        } else {
            first_number(lines.skip(1))
        }
    }
}

/// The first number at the start of a line of the output of `ps`.
pub fn parse_ps_rss_kib(output: &str) -> (r: Option<u64>)
    ensures
        match (r, first_number(lines_of(output@))) {
            (Some(n), Some(m)) => n == m,
            (None, None) => true,
            _ => false,
        },
{
    let all = lines(output);
    let ghost texts = views(all@);
    let mut i: usize = 0;
    assert(texts.skip(0) =~= texts);
    while i < all.len()
        invariant
            i <= all.len(),
            texts == views(all@),
            texts == lines_of(output@),
            first_number(texts) == first_number(texts.skip(i as int)),
        decreases all.len() - i,
    {
        assert(texts.skip(i as int)[0] == all@[i as int]@);
        assert(texts.skip(i as int).skip(1) =~= texts.skip(i + 1));
        let w = words(all[i].as_str());
        if w.len() > 0 {
            assert(views(w@)[0] == w@[0]@);
            match parse_unsigned(w[0].as_str(), u64::MAX) {
                Some(n) => {
                    return Some(n);
                },
                None => {},
            }
        }
        i = i + 1;
    }
    None
}

/// How much memory a process takes: what the system says, or else what `ps`
/// says, in KiB.
pub fn process_memory(reported: Option<u64>, ps_kib: Option<u64>) -> (r: u64)
    ensures
        r == match reported {
            Some(n) if n > 0 => n as int,
            _ => match ps_kib {
                Some(k) => if k * 1024 > u64::MAX {
                    u64::MAX as int
                } else {
                    k * 1024
                },
                None => 0,
            },
        },
{
    match reported {
        Some(n) => {
            if n > 0 {
                return n;
            }
        },
        None => {},
    }
    match ps_kib {
        Some(k) => {
            if k > u64::MAX / 1024 {
                u64::MAX
            } else {
                k * 1024
            }
        },
        None => 0,
    }
}

/// The lines that are not blank.
pub open spec fn filled(lines: Seq<Seq<char>>) -> nat
    decreases lines.len(),
{
    if lines.len() == 0 {
        0
    } else {
        filled(lines.drop_last()) + if trimmed(lines.last()).len() > 0 {
            1nat
        } else {
            0nat
        }
    }
}

/// How many threads a list with a line for each of them tells of: at least one.
pub fn count_thread_lines(output: &str) -> (r: usize)
    ensures
        r == if filled(lines_of(output@)) == 0 {
            1
        } else {
            filled(lines_of(output@))
        },
{
    let all = lines(output);
    let ghost texts = views(all@);
    let mut n: usize = 0;
    let mut i: usize = 0;
    while i < all.len()
        invariant
            i <= all.len(),
            n <= i,
            texts == views(all@),
            n == filled(texts.take(i as int)),
        decreases all.len() - i,
    {
        let line = trim(all[i].as_str());
        assert(texts[i as int] == all@[i as int]@);
        if !line.as_str().is_empty() {
            n = n + 1;
        }
        i = i + 1;
        assert(texts.take(i as int).drop_last() =~= texts.take(i - 1));
    }
    assert(texts.take(i as int) =~= texts);
    if n == 0 {
        1
    } else {
        n
    }
}

/// The number of threads that `ps` gives.
pub fn parse_thread_count(output: &str) -> (r: Option<usize>)
    ensures
        match (r, unsigned_value(trimmed(output@), usize::MAX as int)) {
            (Some(n), Some(m)) => n == m,
            (None, None) => true,
            _ => false,
        },
{
    let text = trim(output);
    match parse_unsigned(text.as_str(), usize::MAX as u64) {
        Some(n) => Some(n as usize),
        None => None,
    }
}

// ---------------------------------------------------------------------------
// Laws

/// Whole amounts are shown in their unit, with one decimal behind bytes.
pub proof fn amounts_are_shown_in_their_unit(
    b: u64,
    k: u64,
    small: String,
    kib: u64,
    as_kib: String,
    mib: u64,
    as_mib: String,
    gib: u64,
    as_gib: String,
    tib: u64,
    as_tib: String,
)
    requires
        b < 1024,
        1 <= k < 1024,
        kib == k * 0x400,
        mib == k * 0x100000,
        gib == k * 0x40000000,
        tib == k * 0x10000000000,
        call_ensures(format_bytes, (b,), small),
        call_ensures(format_bytes, (kib,), as_kib),
        call_ensures(format_bytes, (mib,), as_mib),
        call_ensures(format_bytes, (gib,), as_gib),
        call_ensures(format_bytes, (tib,), as_tib),
    ensures
        small@ == decimal(b as nat) + " B"@,
        as_kib@ == decimal(k as nat) + "."@ + decimal(0) + " KiB"@,
        as_mib@ == decimal(k as nat) + "."@ + decimal(0) + " MiB"@,
        as_gib@ == decimal(k as nat) + "."@ + decimal(0) + " GiB"@,
        as_tib@ == decimal(k as nat) + "."@ + decimal(0) + " TiB"@,
{
    lemma_whole(b as int);
    lemma_whole(kib as int);
    lemma_whole(mib as int);
    lemma_whole(gib as int);
    lemma_whole(tib as int);
    assert(nearest(10 * kib, 0x400) == 10 * k);
    assert(nearest(10 * mib, 0x100000) == 10 * k);
    assert(nearest(10 * gib, 0x40000000) == 10 * k);
    assert(nearest(10 * tib, 0x10000000000) == 10 * k);
    assert((10 * k) / 10 == k && (10 * k) % 10 == 0);
}

proof fn lemma_whole(n: int)
    requires
        0 <= n < 0x20000000000000,
    ensures
        as_double(n) == n,
{
}

/// An amount is shown to the nearest tenth of its unit.
pub proof fn amounts_are_rounded_to_tenths(b: u64, r: String)
    requires
        1024 <= b < 0x100000,
        call_ensures(format_bytes, (b,), r),
    ensures
        exists|t: int|
            0 <= t && r@ == decimal((t / 10) as nat) + "."@ + #[trigger] decimal((t % 10) as nat)
                + " KiB"@ && -512 <= 10 * b - t * 1024 <= 512,
{
    lemma_whole(b as int);
    let t = nearest(10 * b, 0x400);
    assert(-512 <= 10 * b - t * 1024 <= 512);
    assert(r@ == decimal((t / 10) as nat) + "."@ + decimal((t % 10) as nat) + " KiB"@);
}

/// A time is shown in minutes and seconds, with the hours before them where there
/// are any.
pub proof fn times_are_shown_in_parts(h: u64, m: u64, s: u64, secs: u64, r: String)
    requires
        m < 60,
        s < 60,
        secs == h * 3600 + m * 60 + s,
        call_ensures(format_uptime, (secs,), r),
    ensures
        h == 0 ==> r@ == two_digits(m as nat) + "m "@ + two_digits(s as nat) + "s"@,
        h > 0 ==> r@ == decimal(h as nat) + "h "@ + (two_digits(m as nat) + "m "@ + two_digits(
            s as nat,
        ) + "s"@),
{
    assert(secs / 3600 == h && secs / 60 % 60 == m && secs % 60 == s);
}

proof fn lemma_peak(s: Seq<u64>, i: int)
    requires
        0 <= i < s.len(),
    ensures
        s[i] <= peak(s),
        s.contains(peak(s)) || peak(s) == 0,
    decreases s.len(),
{
    let less = s.drop_last();
    if less.len() > 0 {
        lemma_peak(less, if i < less.len() {
            i
        } else {
            0
        });
        if less.contains(peak(less)) {
            let k = choose|k: int| 0 <= k < less.len() && less[k] == peak(less);
            assert(s[k] == peak(less));
        }
    }
    assert(s.contains(s[s.len() - 1]));
    if less.len() == 0 {
        assert(peak(less) == 0);
    } else if peak(less) == 0 {
        assert(peak(s) == s.last() || peak(s) == 0);
    }
}

/// A wave is as wide as wanted, the history itself where it is as long, and empty
/// without one.
pub proof fn waves_are_as_wide_as_wanted(
    history: &Vec<u64>,
    width: usize,
    c: int,
    r: Vec<u64>,
)
    requires
        call_ensures(fit_wave_data_to_width, (history, width), r),
        0 <= c < width,
    ensures
        r@.len() == width,
        history@.len() == width ==> r@[c] == history@[c],
        history@.len() == 0 ==> r@[c] == 0,
        history@.len() == 2 * width ==> r@[c] == (if history@[2 * c] > history@[2 * c + 1] {
            history@[2 * c]
        } else {
            history@[2 * c + 1]
        }),
{
    let n = history@.len() as int;
    if n == width {
        assert(c * n / n == c) by (nonlinear_arith)
            requires
                n > 0,
        ;
    }
    if n == 2 * width {
        assert(c * n / (width as int) == 2 * c) by (nonlinear_arith)
            requires
                n == 2 * width,
                width > 0,
        ;
        assert((c + 1) * n / (width as int) == 2 * c + 2) by (nonlinear_arith)
            requires
                n == 2 * width,
                width > 0,
        ;
        let part = history@.subrange(2 * c, 2 * c + 2);
        reveal_with_fuel(peak, 3);
        assert(part.drop_last() =~= seq![history@[2 * c]]);
        assert(part.drop_last().drop_last() =~= Seq::<u64>::empty());
        assert(part.last() == history@[2 * c + 1]);
    }
}

/// The title of a wave tells what is carried now and at most.
pub proof fn waves_tell_their_peak(
    label: &str,
    history: &Vec<u64>,
    i: int,
    r: String,
    now: String,
    most: u64,
    peak_text: String,
)
    requires
        0 <= i < history@.len(),
        call_ensures(wave_title, (label, history), r),
        call_ensures(format_bytes, (history@[history@.len() - 1],), now),
        history@.contains(most),
        forall|k: int| 0 <= k < history@.len() ==> #[trigger] history@[k] <= most,
        call_ensures(format_bytes, (most,), peak_text),
    ensures
        begins_with(r@, label@ + " · "@ + now@ + "/s now · "@ + peak_text@ + "/s peak · active "@),
{
    lemma_peak(history@, i);
    let p = peak(history@);
    let k = choose|k: int| 0 <= k < history@.len() && history@[k] == most;
    lemma_peak(history@, k);
    if history@.contains(p) {
        let j = choose|j: int| 0 <= j < history@.len() && history@[j] == p;
        assert(history@[j] <= most);
    }
    assert(p == most);
    let start = label@ + " · "@ + now@ + "/s now · "@ + peak_text@ + "/s peak · active "@;
    assert(r@.take(start.len() as int) =~= start);
}

/// A target is shown by its link and what it carried; a name without its scheme.
pub proof fn rows_show_their_target(
    item: &RecentTarget,
    context: &DashboardContext,
    domains: bool,
    name: Seq<char>,
    link: String,
    route: String,
    activity: String,
    up: String,
    down: String,
)
    requires
        call_ensures(recent_targets_are_domain_events, (context,), domains),
        call_ensures(recent_target_link, (item, context), link),
        call_ensures(recent_target_route, (item, context), route),
        call_ensures(recent_target_activity, (item, context), activity),
        call_ensures(format_bytes, (item.uploaded,), up),
        call_ensures(format_bytes, (item.downloaded,), down),
    ensures
        item@.link == "dns://"@ + name ==> link@ == name,
        !domains && !begins_with(item@.link, "dns://"@) ==> link@ == item@.link && route@
            == item@.route && activity@ == up@ + " / "@ + down@,
        begins_with(item@.link, "dns://"@) && item@.route == "wg-dns-direct"@ ==> route@ == "direct"@,
        begins_with(item@.link, "dns://"@) && item@.route == "remote"@ ==> route@ == "proxy"@,
{
    reveal_strlit("wg-dns-direct");
    reveal_strlit("direct");
    reveal_strlit("wg-dns-block");
    reveal_strlit("block");
    reveal_strlit("remote");
    assert("remote"@.len() == 6 && "remote"@[0] == 'r');
    assert("direct"@.len() == 6 && "direct"@[0] == 'd');
    assert("wg-dns-direct"@.len() == 13 && "wg-dns-block"@.len() == 12 && "block"@.len() == 5);
    let d = "dns://"@;
    if item@.link == d + name {
        assert(item@.link.take(d.len() as int) =~= d);
        assert(item@.link.skip(d.len() as int) =~= name);
    }
}

/// The memory of a process is what is reported, or else what the system lists, in
/// bytes; threads are the lines of their list, one at least.
pub proof fn processes_are_measured(
    reported: Option<u64>,
    kib: u64,
    r: u64,
    nothing: u64,
    n: u64,
    output: &str,
    rss: Option<u64>,
    text: &str,
    threads: Option<usize>,
    m: usize,
)
    requires
        kib <= 0x3f_ffff_ffff_ffff,
        call_ensures(process_memory, (reported, Some(kib)), r),
        call_ensures(process_memory, (None, None), nothing),
        output@ == decimal(n as nat),
        call_ensures(parse_ps_rss_kib, (output,), rss),
        text@ == decimal(m as nat),
        call_ensures(parse_thread_count, (text,), threads),
    ensures
        reported matches Some(x) ==> x > 0 ==> r == x,
        reported is None || reported == Some(0u64) ==> r == kib * 1024,
        nothing == 0,
        rss == Some(n),
        threads == Some(m),
{
    let d = decimal(n as nat);
    crate::num::decimal_is_digits(n as nat);
    crate::num::decimal_reads_back(n as nat, u64::MAX as int);
    assert forall|i: int| 0 <= i < d.len() implies !crate::text::is_whitespace(#[trigger] d[i]) && d[i]
        != '\n' by {
        assert(crate::text::is_digit(d[i]));
    }
    crate::text::lemma_lines(d, Seq::empty());
    assert(crate::text::is_word(d));
    let none = Seq::<char>::empty();
    assert(d + none =~= d);
    crate::text::lemma_first_word(d, none);
    assert(words_of(none) =~= Seq::<Seq<char>>::empty());
    assert(words_of(d) =~= seq![d]);
    let e = decimal(m as nat);
    crate::num::decimal_is_digits(m as nat);
    crate::num::decimal_reads_back(m as nat, usize::MAX as int);
    assert(crate::text::is_digit(e[0]) && crate::text::is_digit(e.last()));
    crate::text::lemma_trimmed_same(e);
}

/// A dashboard shows where its service listens and leads, or a dash where that is
/// not known; where a server leads is not shown.
pub proof fn dashboards_show_the_endpoints(
    context: &DashboardContext,
    r: Vec<(&'static str, String)>,
    app: &DashboardApp,
    now: u64,
    mode: Vec<(&'static str, String)>,
    process: Vec<(&'static str, String)>,
    memory: String,
)
    requires
        call_ensures(endpoint_fields, (context,), r),
        app.wf(),
        uptime_secs(app@, now) <= u64::MAX,
        call_ensures(mode_fields, (app, now), mode),
        call_ensures(process_fields, (app,), process),
        call_ensures(format_bytes, (app.process_stats.memory_bytes,), memory),
    ensures
        r@.len() == (if context@.command_label == "server"@ {
            2nat
        } else {
            3
        }),
        r@[0].0@ == "listen "@,
        context@.listen matches Some(l) ==> r@[0].1@ == l,
        context@.command_label != "server"@ ==> r@[1].0@ == "upstream "@ && (
        context@.upstream matches Some(u) ==> r@[1].1@ == u),
        r@.last().0@ == "path "@,
        context@.path matches Some(p) ==> r@.last().1@ == p,
        context@.path is None ==> r@.last().1@ == "-"@,
        mode@[0].1@ == app@.context.mode_label,
        mode@[1].1@ == app@.context.traffic_state.name(),
        process@[0].1@ == decimal(app@.pid as nat),
        process@[1].1@ == memory@,
        process@[3].1@ == app@.context.log_file,
{
    assert(pairs(r@).len() == r@.len());
    assert(pairs(r@)[0] == (r@[0].0@, r@[0].1@));
    assert(pairs(r@)[1] == (r@[1].0@, r@[1].1@));
    assert(pairs(r@).last() == (r@.last().0@, r@.last().1@));
    assert(pairs(mode@).len() == mode@.len());
    assert(pairs(mode@)[0] == (mode@[0].0@, mode@[0].1@));
    assert(pairs(mode@)[1] == (mode@[1].0@, mode@[1].1@));
    assert(pairs(process@).len() == process@.len());
    assert(pairs(process@)[0] == (process@[0].0@, process@[0].1@));
    assert(pairs(process@)[1] == (process@[1].0@, process@[1].1@));
    assert(pairs(process@)[3] == (process@[3].0@, process@[3].1@));
}

} // verus!
