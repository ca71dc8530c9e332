//! The cookie viewer: what the jar holds, and which of it is selected.

use crate::lists;
use crate::strings;
use vstd::prelude::*;
use vstd::string::*;

verus! {

/// A cookie of the jar.
pub struct StoredCookie {
    pub domain: String,
    /// Whether it is kept from subdomains.
    pub host_only: bool,
    pub name: String,
    pub value: String,
    pub path: String,
    pub secure: bool,
    pub http_only: bool,
    /// When it goes, in seconds since the epoch; nothing where it goes with the session.
    pub expires: Option<i64>,
}

/// Which cookie is selected. The cookies themselves are read from the jar whenever they are
/// drawn.
pub struct CookiePanel {
    pub selected: usize,
}

impl CookiePanel {
    pub fn new() -> (r: CookiePanel)
        ensures
            r.selected == 0,
    {
        CookiePanel { selected: 0 }
    }

    /// Step through `len` rows, going round at both ends.
    pub fn step(&mut self, delta: isize, len: usize)
        ensures
            final(self).selected == step_to(old(self).selected as int, delta as int, len as int),
    {
        self.selected = stepped(self.selected, delta, len);
    }

    /// Keep the selection on a row that is there: the list changes while it is open.
    pub fn clamp(&mut self, len: usize)
        ensures
            final(self).selected == (if len == 0 {
                0
            } else if old(self).selected < len {
                old(self).selected as int
            } else {
                len - 1
            }),
            len > 0 ==> final(self).selected < len,
    {
        if len == 0 {
            self.selected = 0;
        } else if self.selected >= len {
            self.selected = len - 1;
        }
    }
}

/// Where a step through `len` rows leads; an empty list has nothing to step through.
pub open spec fn step_to(selected: int, delta: int, len: int) -> int {
    if len == 0 {
        0
    } else {
        lists::wrapped(selected, delta, len)
    }
}

/// One step through `len` rows, going round at both ends.
pub fn stepped(selected: usize, delta: isize, len: usize) -> (r: usize)
    ensures
        r == step_to(selected as int, delta as int, len as int),
        len > 0 ==> r < len,
{
    if len == 0 {
        return 0;
    }
    lists::wrap_from(selected, delta, len)
}

/// A span of seconds in the largest unit that it holds at least one of.
pub open spec fn span_text(seconds: int) -> Seq<char> {
    if seconds < 60 {
        strings::decimal(seconds as nat) + "s"@
    } else if seconds < 3_600 {
        strings::decimal((seconds / 60) as nat) + "m"@
    } else if seconds < 86_400 {
        strings::decimal((seconds / 3_600) as nat) + "h"@
    } else if seconds < 31_536_000 {
        strings::decimal((seconds / 86_400) as nat) + "d"@
    } else {
        strings::decimal((seconds / 31_536_000) as nat) + "y"@
    }
}

/// When a cookie stops being sent, seen from now.
pub open spec fn expiry_text(expires: Option<i64>, now: i64) -> Seq<char> {
    match expires {
        None => "session"@,
        Some(at) => if at - now <= 0 {
            "expired"@
        } else {
            "in "@ + span_text(at - now)
        },
    }
}

/// When a cookie stops being sent, seen from now: the question is whether it will be there for
/// the next request.
pub fn expiry_label(expires: Option<i64>, now: i64) -> (r: String)
    ensures
        r@ == expiry_text(expires, now),
{
    let at: i64 = match expires {
        Some(at) => at,
        None => {
            return "session".to_owned();
        },
    };
    if at <= now {
        return "expired".to_owned();
    }
    let left: u64 = (at as i128 - now as i128) as u64;
    let (amount, unit): (u64, &str) = if left < 60 {
        (left, "s")
    } else if left < 3_600 {
        (left / 60, "m")
    } else if left < 86_400 {
        (left / 3_600, "h")
    } else if left < 31_536_000 {
        (left / 86_400, "d")
    } else {
        (left / 31_536_000, "y")
    };
    let mut label = "in ".to_owned();
    label.append(strings::decimal_string(amount).as_str());
    label.append(unit);
    proof {
        assert(label@ =~= "in "@ + (strings::decimal(amount as nat) + unit@));
    }
    label
}

/// What stands at the end of a cookie's row, entry by entry. A path that covers everything says
/// nothing and is left out.
pub open spec fn detail_entries(cookie: StoredCookie, now: i64) -> Seq<Seq<char>> {
    (if cookie.path@ == "/"@ {
        Seq::empty()
    } else {
        seq![cookie.path@]
    }) + (if cookie.secure {
        seq!["secure"@]
    } else {
        Seq::empty()
    }) + (if cookie.http_only {
        seq!["httponly"@]
    } else {
        Seq::empty()
    }) + seq![expiry_text(cookie.expires, now)]
}

/// What stands at the end of a cookie's row.
pub fn entry_detail(cookie: &StoredCookie, now: i64) -> (r: String)
    ensures
        r@ == strings::joined(detail_entries(*cookie, now), " · "@),
{
    let mut detail: Vec<String> = Vec::new();
    if !strings::same(cookie.path.as_str(), "/") {
        detail.push(cookie.path.clone());
    }
    if cookie.secure {
        detail.push("secure".to_owned());
    }
    if cookie.http_only {
        detail.push("httponly".to_owned());
    }
    detail.push(expiry_label(cookie.expires, now));
    proof {
        assert(strings::texts(detail@) =~= detail_entries(*cookie, now));
    }
    strings::join(&detail, " · ")
}

/// Whether a cookie begins a group: cookies of one domain and one reach stand under one heading.
pub open spec fn begins_group(cookies: Seq<StoredCookie>, ix: int) -> bool {
    ix == 0 || cookies[ix - 1].domain@ != cookies[ix].domain@ || cookies[ix - 1].host_only
        != cookies[ix].host_only
}

/// Whether a heading stands above a cookie's row.
pub fn has_heading(cookies: &Vec<StoredCookie>, ix: usize) -> (r: bool)
    requires
        ix < cookies.len(),
    ensures
        r == begins_group(cookies@, ix as int),
{
    ix == 0 || cookies[ix - 1].domain != cookies[ix].domain || cookies[ix - 1].host_only
        != cookies[ix].host_only
}

/// What the heading says of where a cookie goes.
pub fn reach_note(host_only: bool) -> (r: &'static str)
    ensures
        r@ == (if host_only {
            "this host only"@
        } else {
            "and its subdomains"@
        }),
{
    if host_only {
        "this host only"
    } else {
        "and its subdomains"
    }
}

/// How many cookies there are, as it reads.
pub fn count_label(count: usize) -> (r: String)
    ensures
        r@ == (if count == 1 {
            "1 cookie"@
        } else {
            strings::decimal(count as nat) + " cookies"@
        }),
{
    if count == 1 {
        "1 cookie".to_owned()
    } else {
        let mut label = strings::decimal_string(count as u64);
        label.append(" cookies");
        label
    }
}

/// A span is said in the largest unit that it holds at least one of, and in how many whole ones.
pub proof fn a_span_is_said_in_its_largest_unit(seconds: int, n: int)
    requires
        0 <= seconds,
        1 <= n,
    ensures
        seconds < 60 ==> span_text(seconds) == strings::decimal(seconds as nat) + "s"@,
        n < 60 && 60 * n <= seconds < 60 * (n + 1) ==> span_text(seconds) == strings::decimal(
            n as nat,
        ) + "m"@,
        n < 24 && 3600 * n <= seconds < 3600 * (n + 1) ==> span_text(seconds) == strings::decimal(
            n as nat,
        ) + "h"@,
        n < 365 && 86400 * n <= seconds < 86400 * (n + 1) ==> span_text(seconds)
            == strings::decimal(n as nat) + "d"@,
        31536000 * n <= seconds < 31536000 * (n + 1) ==> span_text(seconds) == strings::decimal(
            n as nat,
        ) + "y"@,
{
}

/// A cookie without an end lasts the session; one whose end has come is expired, however long ago;
/// any other says how long is left.
pub proof fn a_cookie_says_how_long_it_lasts(at: i64, now: i64)
    ensures
        expiry_text(None, now) == "session"@,
        at <= now ==> expiry_text(Some(at), now) == "expired"@,
        at > now ==> expiry_text(Some(at), now) == "in "@ + span_text(at - now),
{
}

/// A cookie's row ends in when it expires, and before that says what is not the rule: a path that
/// does not cover everything, that it is secure, that scripts cannot read it.
pub proof fn a_row_says_what_is_not_the_rule(cookie: StoredCookie, now: i64)
    ensures
        ({
            let entries = detail_entries(cookie, now);
            let path = if cookie.path@ == "/"@ {
                0int
            } else {
                1int
            };
            let secure = if cookie.secure {
                1int
            } else {
                0int
            };
            let hidden = if cookie.http_only {
                1int
            } else {
                0int
            };
            &&& entries.len() == path + secure + hidden + 1
            &&& entries.last() == expiry_text(cookie.expires, now)
            &&& cookie.path@ != "/"@ ==> entries[0] == cookie.path@
            &&& cookie.secure ==> entries[path] == "secure"@
            &&& cookie.http_only ==> entries[path + secure] == "httponly"@
        }),
{
}

/// The cookies under one heading are of one domain and one reach, and the first cookie has a
/// heading.
pub proof fn cookies_under_a_heading_belong_together(cookies: Seq<StoredCookie>, ix: int)
    requires
        0 <= ix < cookies.len(),
    ensures
        begins_group(cookies, 0),
        ix > 0 ==> (!begins_group(cookies, ix) <==> cookies[ix].domain@ == cookies[ix - 1].domain@
            && cookies[ix].host_only == cookies[ix - 1].host_only),
{
}

/// A step through rows goes round and stays among them; without rows it stays at the top.
pub proof fn a_step_stays_among_the_rows(selected: int, delta: int, len: int)
    requires
        0 <= selected,
        0 <= len,
    ensures
        len == 0 ==> step_to(selected, delta, len) == 0,
        len > 0 ==> 0 <= step_to(selected, delta, len) < len,
        selected + 1 < len ==> step_to(selected, 1, len) == selected + 1,
        len > 0 && selected == len - 1 ==> step_to(selected, 1, len) == 0,
        0 < selected < len ==> step_to(selected, -1, len) == selected - 1,
        len > 0 && selected == 0 ==> step_to(selected, -1, len) == len - 1,
{
    if 0 <= selected < len {
        lists::steps_go_round_one_by_one(selected, 0, 0, len);
    }
}

} // verus!
