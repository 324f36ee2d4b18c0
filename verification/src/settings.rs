//! Update settings of the maintainer panel: reading them from the settings table
//! and turning a change request into the writes it makes.

use vstd::prelude::*;
use crate::models::{UpdateSettingsDto, UpdateSettingsRequest};
use crate::scan::{ascii_lowercase, lemma_no_uppercase_lowercase, to_ascii_lowercase};
use crate::text::{
    chars_equal_str, chars_of, decimal, lemma_decimal_reads_back, parse_in_range,
    parse_integer_text, push_decimal, spec_trim, string_from_chars, trim_chars, CharClass,
};

verus! {

/// Largest accepted check interval, in minutes (seven days).
pub const MAX_CHECK_INTERVAL_MINUTES: u32 = 10080;

/// A stored flag is set when it reads `true` in any ASCII case, or `1`.
pub open spec fn setting_flag(s: Seq<char>) -> bool {
    ascii_lowercase(s) == "true"@ || s == "1"@
}

/// The stored value of a setting, or its default.
pub open spec fn value_or(v: Option<Seq<char>>, default: Seq<char>) -> Seq<char> {
    match v {
        Some(x) => x,
        None => default,
    }
}

/// The characters of an optional string.
pub open spec fn opt_view(v: Option<String>) -> Option<Seq<char>> {
    match v {
        Some(x) => Some(x@),
        None => None,
    }
}

/// The settings as read from stored values: flag defaults `true`, channel
/// `stable` (also when empty), interval 720 (also when unreadable), endpoint only
/// when non-empty.
pub struct SettingsView {
    pub enabled: bool,
    pub channel: Seq<char>,
    pub auto_check: bool,
    pub check_interval_minutes: u32,
    pub endpoint_override: Option<Seq<char>>,
}

/// Reads the settings from the stored values of the five keys.
pub open spec fn read_settings(
    enabled: Option<Seq<char>>,
    channel: Option<Seq<char>>,
    auto_check: Option<Seq<char>>,
    interval: Option<Seq<char>>,
    endpoint: Option<Seq<char>>,
) -> SettingsView {
    let ch = value_or(channel, "stable"@);
    SettingsView {
        enabled: setting_flag(value_or(enabled, "true"@)),
        channel: if ch.len() == 0 { "stable"@ } else { ch },
        auto_check: setting_flag(value_or(auto_check, "true"@)),
        check_interval_minutes: match parse_in_range(value_or(interval, "720"@), false, 0, u32::MAX as int) {
            Some(v) => v as u32,
            None => 720,
        },
        endpoint_override: match endpoint {
            Some(e) => if e.len() > 0 { Some(e) } else { None },
            None => None,
        },
    }
}

/// `d` shows the settings `v`.
pub open spec fn dto_shows(d: UpdateSettingsDto, v: SettingsView) -> bool {
    &&& d.enabled == v.enabled
    &&& d.channel@ == v.channel
    &&& d.auto_check == v.auto_check
    &&& d.check_interval_minutes == v.check_interval_minutes
    &&& opt_view(d.endpoint_override) == v.endpoint_override
}

/// Whether a stored flag is set.
fn flag_of(s: &str) -> (r: bool)
    ensures
        r == setting_flag(s@),
{
    let l = to_ascii_lowercase(&chars_of(s));
    chars_equal_str(&l, "true") || chars_equal_str(&chars_of(s), "1")
}

/// The update settings from the stored values of `updates.enabled`,
/// `updates.channel`, `updates.autoCheck`, `updates.checkIntervalMinutes` and
/// `updates.endpointOverride`.
pub fn update_settings_from_stored(
    enabled: Option<String>,
    channel: Option<String>,
    auto_check: Option<String>,
    check_interval_minutes: Option<String>,
    endpoint_override: Option<String>,
) -> (r: UpdateSettingsDto)
    ensures
        dto_shows(
            r,
            read_settings(
                opt_view(enabled),
                opt_view(channel),
                opt_view(auto_check),
                opt_view(check_interval_minutes),
                opt_view(endpoint_override),
            ),
        ),
{
    let en = match &enabled {
        Some(s) => flag_of(s.as_str()),
        None => flag_of("true"),
    };
    let ch = match channel {
        Some(c) => if c.as_str().unicode_len() == 0 { String::from_str("stable") } else { c },
        None => String::from_str("stable"),
    };
    let ac = match &auto_check {
        Some(s) => flag_of(s.as_str()),
        None => flag_of("true"),
    };
    let raw = match &check_interval_minutes {
        Some(s) => parse_integer_text(s.as_str(), false, 0, 0xFFFF_FFFF),
        None => parse_integer_text("720", false, 0, 0xFFFF_FFFF),
    };
    let minutes: u32 = match raw {
        Some(v) => v as u32,
        None => 720,
    };
    let ep = match endpoint_override {
        Some(e) => if e.as_str().unicode_len() > 0 { Some(e) } else { None },
        None => None,
    };
    UpdateSettingsDto { enabled: en, channel: ch, auto_check: ac, check_interval_minutes: minutes, endpoint_override: ep }
}

/// `true` or `false` as stored text.
pub open spec fn flag_text(b: bool) -> Seq<char> {
    if b {
        "true"@
    } else {
        "false"@
    }
}

/// The channel a request asks for: empty means `stable`.
pub open spec fn requested_channel(c: Seq<char>) -> Seq<char> {
    if c.len() == 0 {
        "stable"@
    } else {
        c
    }
}

/// The writes an update-settings request makes, in order: each field given is
/// written; a channel only when it is `stable` or `beta`; an interval only from 1
/// to 10080 minutes; the endpoint trimmed.
pub open spec fn setting_writes(
    enabled: Option<bool>,
    channel: Option<Seq<char>>,
    auto_check: Option<bool>,
    interval: Option<u32>,
    endpoint: Option<Seq<char>>,
) -> Seq<(Seq<char>, Seq<char>)> {
    let w1: Seq<(Seq<char>, Seq<char>)> = match enabled {
        Some(b) => seq![("updates.enabled"@, flag_text(b))],
        None => Seq::empty(),
    };
    let w2: Seq<(Seq<char>, Seq<char>)> = match channel {
        Some(c) => if requested_channel(c) == "stable"@ || requested_channel(c) == "beta"@ {
            seq![("updates.channel"@, requested_channel(c))]
        } else {
            Seq::empty()
        },
        None => Seq::empty(),
    };
    let w3: Seq<(Seq<char>, Seq<char>)> = match auto_check {
        Some(b) => seq![("updates.autoCheck"@, flag_text(b))],
        None => Seq::empty(),
    };
    let w4: Seq<(Seq<char>, Seq<char>)> = match interval {
        Some(m) => if 0 < m && m <= MAX_CHECK_INTERVAL_MINUTES {
            seq![("updates.checkIntervalMinutes"@, decimal(m as nat))]
        } else {
            Seq::empty()
        },
        None => Seq::empty(),
    };
    let w5: Seq<(Seq<char>, Seq<char>)> = match endpoint {
        Some(e) => seq![("updates.endpointOverride"@, spec_trim(e))],
        None => Seq::empty(),
    };
    w1 + w2 + w3 + w4 + w5
}

/// The writes as text pairs.
pub open spec fn writes_view(v: Seq<(String, String)>) -> Seq<(Seq<char>, Seq<char>)> {
    v.map_values(|p: (String, String)| (p.0@, p.1@))
}

/// A single write, as a list.
fn one_write(key: &str, value: String) -> (r: Vec<(String, String)>)
    ensures
        writes_view(r@) == seq![(key@, value@)],
{
    let mut v = Vec::new();
    let ghost val = value@;
    v.push((String::from_str(key), value));
    assert(writes_view(v@) =~= seq![(key@, val)]);
    v
}

/// No write.
fn no_write() -> (r: Vec<(String, String)>)
    ensures
        writes_view(r@) == Seq::<(Seq<char>, Seq<char>)>::empty(),
{
    let v: Vec<(String, String)> = Vec::new();
    assert(writes_view(v@) =~= Seq::<(Seq<char>, Seq<char>)>::empty());
    v
}

/// The write of a flag.
fn flag_write(key: &str, b: Option<bool>) -> (r: Vec<(String, String)>)
    ensures
        writes_view(r@) == match b {
            Some(x) => seq![(key@, flag_text(x))],
            None => Seq::empty(),
        },
{
    match b {
        Some(x) => one_write(key, String::from_str(if x { "true" } else { "false" })),
        None => no_write(),
    }
}

/// Appends the writes `b` to `a`.
fn append_writes(a: &mut Vec<(String, String)>, b: Vec<(String, String)>)
    ensures
        writes_view(final(a)@) == writes_view(old(a)@) + writes_view(b@),
{
    let mut b = b;
    let ghost bv = b@;
    a.append(&mut b);
    assert(writes_view(a@) =~= writes_view(old(a)@) + writes_view(bv));
}

/// The settings writes of an update request, in order (see `setting_writes`).
pub fn plan_update_settings(req: &UpdateSettingsRequest) -> (r: Vec<(String, String)>)
    ensures
        writes_view(r@) == setting_writes(req.enabled, opt_view(req.channel), req.auto_check, req.check_interval_minutes, opt_view(req.endpoint_override)),
{
    let mut out = flag_write("updates.enabled", req.enabled);
    let w2 = match &req.channel {
        Some(c) => {
            let ch = if c.as_str().unicode_len() == 0 { String::from_str("stable") } else { c.clone() };
            let cv = chars_of(ch.as_str());
            if chars_equal_str(&cv, "stable") || chars_equal_str(&cv, "beta") {
                one_write("updates.channel", ch)
            } else {
                no_write()
            }
        },
        None => no_write(),
    };
    append_writes(&mut out, w2);
    append_writes(&mut out, flag_write("updates.autoCheck", req.auto_check));
    let w4 = match req.check_interval_minutes {
        Some(m) => {
            if m > 0 && m <= MAX_CHECK_INTERVAL_MINUTES {
                let mut digits: Vec<char> = Vec::new();
                push_decimal(&mut digits, m as u64);
                assert(digits@ =~= decimal(m as nat));
                one_write("updates.checkIntervalMinutes", string_from_chars(&digits))
            } else {
                no_write()
            }
        },
        None => no_write(),
    };
    append_writes(&mut out, w4);
    let w5 = match &req.endpoint_override {
        Some(e) => {
            let t = trim_chars(&chars_of(e.as_str()), CharClass::Whitespace);
            one_write("updates.endpointOverride", string_from_chars(&t))
        },
        None => no_write(),
    };
    append_writes(&mut out, w5);
    out
}


/// The value that the writes `w`, made in order, leave at `key`: the last one.
pub open spec fn last_write(w: Seq<(Seq<char>, Seq<char>)>, key: Seq<char>) -> Option<Seq<char>>
    decreases w.len(),
{
    if w.len() == 0 {
        None
    } else if w.last().0 == key {
        Some(w.last().1)
    } else {
        last_write(w.drop_last(), key)
    }
}

/// What the settings table holds at `key` after the writes `w` on `store`.
pub open spec fn stored_after(
    store: Map<Seq<char>, Seq<char>>,
    w: Seq<(Seq<char>, Seq<char>)>,
    key: Seq<char>,
) -> Option<Seq<char>> {
    match last_write(w, key) {
        Some(v) => Some(v),
        None => if store.dom().contains(key) {
            Some(store[key])
        } else {
            None
        },
    }
}

/// The update settings read from the table after the writes `w` on `store`.
pub open spec fn settings_after(
    store: Map<Seq<char>, Seq<char>>,
    w: Seq<(Seq<char>, Seq<char>)>,
) -> SettingsView {
    read_settings(
        stored_after(store, w, "updates.enabled"@),
        stored_after(store, w, "updates.channel"@),
        stored_after(store, w, "updates.autoCheck"@),
        stored_after(store, w, "updates.checkIntervalMinutes"@),
        stored_after(store, w, "updates.endpointOverride"@),
    )
}

proof fn lemma_last_write_concat(a: Seq<(Seq<char>, Seq<char>)>, b: Seq<(Seq<char>, Seq<char>)>, key: Seq<char>)
    ensures
        last_write(a + b, key) == match last_write(b, key) {
            Some(v) => Some(v),
            None => last_write(a, key),
        },
    decreases b.len(),
{
    if b.len() == 0 {
        assert(a + b =~= a);
    } else {
        assert((a + b).drop_last() =~= a + b.drop_last());
        lemma_last_write_concat(a, b.drop_last(), key);
    }
}

proof fn lemma_last_write_one(k: Seq<char>, v: Seq<char>, key: Seq<char>)
    ensures
        last_write(seq![(k, v)], key) == if k == key {
            Some(v)
        } else {
            None::<Seq<char>>
        },
{
    let w = seq![(k, v)];
    assert(w.len() == 1 && w.last() == (k, v));
    assert(w.drop_last() =~= Seq::<(Seq<char>, Seq<char>)>::empty());
    assert(last_write(w.drop_last(), key) is None);
}


/// Reading a setting back after an update request: each field that the request
/// sets reads back as it was sent (the channel when it is `stable` or `beta`,
/// empty meaning `stable`; the interval when it is 1 to 10080 minutes; the
/// endpoint trimmed, and absent when that leaves it empty); every other field
/// reads as before.
pub proof fn law_update_settings_read_back(
    store: Map<Seq<char>, Seq<char>>,
    enabled: Option<bool>,
    channel: Option<Seq<char>>,
    auto_check: Option<bool>,
    interval: Option<u32>,
    endpoint: Option<Seq<char>>,
)
    ensures
        ({
            let before = settings_after(store, Seq::empty());
            let after = settings_after(store, setting_writes(enabled, channel, auto_check, interval, endpoint));
            &&& after.enabled == match enabled {
                Some(b) => b,
                None => before.enabled,
            }
            &&& after.channel == match channel {
                Some(c) => if requested_channel(c) == "stable"@ || requested_channel(c) == "beta"@ {
                    requested_channel(c)
                } else {
                    before.channel
                },
                None => before.channel,
            }
            &&& after.auto_check == match auto_check {
                Some(b) => b,
                None => before.auto_check,
            }
            &&& after.check_interval_minutes == match interval {
                Some(m) => if 0 < m && m <= MAX_CHECK_INTERVAL_MINUTES {
                    m
                } else {
                    before.check_interval_minutes
                },
                None => before.check_interval_minutes,
            }
            &&& after.endpoint_override == match endpoint {
                Some(e) => if spec_trim(e).len() > 0 {
                    Some(spec_trim(e))
                } else {
                    None
                },
                None => before.endpoint_override,
            }
        }),
{
    reveal_strlit("updates.enabled");
    reveal_strlit("updates.channel");
    reveal_strlit("updates.autoCheck");
    reveal_strlit("updates.checkIntervalMinutes");
    reveal_strlit("updates.endpointOverride");
    reveal_strlit("true");
    reveal_strlit("false");
    reveal_strlit("1");
    reveal_strlit("stable");
    reveal_strlit("beta");
    let k1 = "updates.enabled"@;
    let k2 = "updates.channel"@;
    let k3 = "updates.autoCheck"@;
    let k4 = "updates.checkIntervalMinutes"@;
    let k5 = "updates.endpointOverride"@;
    let keys = seq![k1, k2, k3, k4, k5];
    assert(k1[8] != k2[8]);
    assert(k1.len() == 15 && k2.len() == 15 && k3.len() == 17 && k4.len() == 28 && k5.len() == 24);
    assert(k1 != k2 && k1 != k3 && k1 != k4 && k1 != k5 && k2 != k3 && k2 != k4 && k2 != k5);
    assert(k3 != k4 && k3 != k5 && k4 != k5);
    let w1: Seq<(Seq<char>, Seq<char>)> = match enabled {
        Some(b) => seq![(k1, flag_text(b))],
        None => Seq::empty(),
    };
    let w2: Seq<(Seq<char>, Seq<char>)> = match channel {
        Some(c) => if requested_channel(c) == "stable"@ || requested_channel(c) == "beta"@ {
            seq![(k2, requested_channel(c))]
        } else {
            Seq::empty()
        },
        None => Seq::empty(),
    };
    let w3: Seq<(Seq<char>, Seq<char>)> = match auto_check {
        Some(b) => seq![(k3, flag_text(b))],
        None => Seq::empty(),
    };
    let w4: Seq<(Seq<char>, Seq<char>)> = match interval {
        Some(m) => if 0 < m && m <= MAX_CHECK_INTERVAL_MINUTES {
            seq![(k4, decimal(m as nat))]
        } else {
            Seq::empty()
        },
        None => Seq::empty(),
    };
    let w5: Seq<(Seq<char>, Seq<char>)> = match endpoint {
        Some(e) => seq![(k5, spec_trim(e))],
        None => Seq::empty(),
    };
    let w = setting_writes(enabled, channel, auto_check, interval, endpoint);
    assert(w == w1 + w2 + w3 + w4 + w5);
    assert forall|i: int| 0 <= i < 5 implies #[trigger] last_write(w, keys[i]) == match last_write(w5, keys[i]) {
        Some(v) => Some(v),
        None => match last_write(w4, keys[i]) {
            Some(v) => Some(v),
            None => match last_write(w3, keys[i]) {
                Some(v) => Some(v),
                None => match last_write(w2, keys[i]) {
                    Some(v) => Some(v),
                    None => last_write(w1, keys[i]),
                },
            },
        },
    } by {
        let key = keys[i];
        lemma_last_write_concat(w1 + w2 + w3 + w4, w5, key);
        lemma_last_write_concat(w1 + w2 + w3, w4, key);
        lemma_last_write_concat(w1 + w2, w3, key);
        lemma_last_write_concat(w1, w2, key);
    }
    assert forall|i: int| 0 <= i < 5 implies {
        &&& #[trigger] last_write(w1, keys[i]) == (if i == 0 { last_write(w1, k1) } else { None })
        &&& last_write(w2, keys[i]) == (if i == 1 { last_write(w2, k2) } else { None })
        &&& last_write(w3, keys[i]) == (if i == 2 { last_write(w3, k3) } else { None })
        &&& last_write(w4, keys[i]) == (if i == 3 { last_write(w4, k4) } else { None })
        &&& last_write(w5, keys[i]) == (if i == 4 { last_write(w5, k5) } else { None })
    } by {
        let key = keys[i];
        match enabled {
            Some(b) => lemma_last_write_one(k1, flag_text(b), key),
            None => {},
        }
        if w2.len() > 0 {
            lemma_last_write_one(k2, requested_channel(channel.unwrap()), key);
        }
        match auto_check {
            Some(b) => lemma_last_write_one(k3, flag_text(b), key),
            None => {},
        }
        if w4.len() > 0 {
            lemma_last_write_one(k4, decimal(interval.unwrap() as nat), key);
        }
        match endpoint {
            Some(e) => lemma_last_write_one(k5, spec_trim(e), key),
            None => {},
        }
    }
    assert(keys[0] == k1 && keys[1] == k2 && keys[2] == k3 && keys[3] == k4 && keys[4] == k5);
    assert(last_write(w, k1) == last_write(w1, k1));
    assert(last_write(w, k2) == last_write(w2, k2));
    assert(last_write(w, k3) == last_write(w3, k3));
    assert(last_write(w, k4) == last_write(w4, k4));
    assert(last_write(w, k5) == last_write(w5, k5));
    lemma_no_uppercase_lowercase("true"@);
    lemma_no_uppercase_lowercase("false"@);
    assert(setting_flag(flag_text(true)));
    assert("false"@ != "true"@ && "false"@ != "1"@) by {
        assert("false"@.len() != "true"@.len());
    }
    assert(!setting_flag(flag_text(false)));
    match interval {
        Some(m) => {
            lemma_decimal_reads_back(m as nat);
        },
        None => {},
    }
}

} // verus!
