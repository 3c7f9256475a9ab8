//! Traffic shaping with Linux `tc`: queueing disciplines, HTB classes and
//! their filters, presets, and the argument lists of the `tc` commands.
use vstd::prelude::*;
use crate::text::{all_digits, chars_of, decimal, digits_value, is_digit, owned, push_decimal, push_string, unsigned_digits, views};

verus! {

/// A queueing discipline.
#[derive(PartialEq, Eq, Structural, Clone, Copy, Debug)]
pub enum QdiscType {
    /// Hierarchical token bucket.
    Htb,
    /// Stochastic fairness queueing.
    Sfq,
    /// Fair queue CoDel.
    FqCodel,
    /// Common Applications Kept Enhanced.
    Cake,
    /// Token bucket filter.
    Tbf,
    Pfifo,
    Bfifo,
}

impl QdiscType {
    pub open spec fn name_spec(self) -> Seq<char> {
        match self {
            QdiscType::Htb => "htb"@,
            QdiscType::Sfq => "sfq"@,
            QdiscType::FqCodel => "fq_codel"@,
            QdiscType::Cake => "cake"@,
            QdiscType::Tbf => "tbf"@,
            QdiscType::Pfifo => "pfifo"@,
            QdiscType::Bfifo => "bfifo"@,
        }
    }

    /// The discipline's name for `tc`.
    pub fn to_string(&self) -> (s: String)
        ensures
            s@ == self.name_spec(),
    {
        match self {
            QdiscType::Htb => owned("htb"),
            QdiscType::Sfq => owned("sfq"),
            QdiscType::FqCodel => owned("fq_codel"),
            QdiscType::Cake => owned("cake"),
            QdiscType::Tbf => owned("tbf"),
            QdiscType::Pfifo => owned("pfifo"),
            QdiscType::Bfifo => owned("bfifo"),
        }
    }
}

/// Priority of a class of traffic, highest first.
#[derive(PartialEq, Eq, Structural, Clone, Copy, Debug, PartialOrd, Ord)]
pub enum TrafficPriority {
    Realtime,
    High,
    Medium,
    Low,
    Lowest,
}

/// An HTB class: its rates, its priority and the traffic it matches.
#[derive(Clone, Debug)]
pub struct HtbClass {
    pub name: String,
    pub interface: String,
    /// The parent class, such as `1:1`.
    pub parent: Option<String>,
    /// This class, such as `1:10`.
    pub class_id: String,
    /// The guaranteed rate, such as `1mbit`.
    pub rate: String,
    /// The ceiling rate.
    pub ceil: String,
    pub burst: Option<String>,
    /// From 0 to 7; lower is served first.
    pub priority: u8,
    pub match_dst_port: Option<u16>,
    pub match_src_port: Option<u16>,
    /// `tcp`, `udp` or `icmp`.
    pub match_protocol: Option<String>,
    pub match_dst_network: Option<String>,
    pub match_src_network: Option<String>,
    /// Type of service.
    pub match_tos: Option<u8>,
    /// Packet mark.
    pub match_mark: Option<u32>,
}

/// A set of classes on an interface.
#[derive(Clone, Debug)]
pub struct ShapingRule {
    pub name: String,
    pub enabled: bool,
    pub interface: String,
    pub direction: TrafficDirection,
    pub qdisc_type: QdiscType,
    pub classes: Vec<HtbClass>,
}

#[derive(PartialEq, Eq, Structural, Clone, Copy, Debug)]
pub enum TrafficDirection {
    Ingress,
    Egress,
}

/// A plain bandwidth limit on an interface.
#[derive(Clone, Debug)]
pub struct BandwidthLimit {
    pub interface: String,
    /// Such as `100mbit`.
    pub download_rate: String,
    pub upload_rate: String,
}

/// Why a `tc` step was refused.
#[derive(PartialEq, Eq, Structural, Clone, Copy, Debug)]
pub enum QosError {
    /// The class id has no number after its colon.
    InvalidClassIdFormat,
    /// The number after the colon is not a `u32`.
    InvalidClassNumber,
    /// A protocol other than `tcp`, `udp` or `icmp`.
    UnknownProtocol,
}

/// What parsing text as a `u32` gives: decimal digits, optionally after a
/// `+`, of a value that fits.
pub open spec fn parse_u32_spec(s: Seq<char>) -> Option<u32> {
    if unsigned_digits(s).len() > 0 && all_digits(unsigned_digits(s)) && digits_value(unsigned_digits(s))
        <= u32::MAX {
        Some(digits_value(unsigned_digits(s)) as u32)
    } else {
        None
    }
}

/// The characters of `s` before its first colon, or all of them.
pub open spec fn before_colon(s: Seq<char>) -> Seq<char>
    decreases s.len(),
{
    if s.len() == 0 || s[0] == ':' {
        Seq::empty()
    } else {
        seq![s[0]] + before_colon(s.drop_first())
    }
}

/// The characters of `s` after its first colon, if it has one.
pub open spec fn after_colon(s: Seq<char>) -> Option<Seq<char>>
    decreases s.len(),
{
    if s.len() == 0 {
        None
    } else if s[0] == ':' {
        Some(s.drop_first())
    } else {
        after_colon(s.drop_first())
    }
}

/// The number of a class id: the piece between its first colon and the
/// next one (or the end), as splitting at colons gives it second.
pub open spec fn class_number(id: Seq<char>) -> Option<Seq<char>> {
    match after_colon(id) {
        Some(r) => Some(before_colon(r)),
        None => None,
    }
}

/// The protocol number that a filter matches.
pub open spec fn protocol_number(p: Seq<char>) -> Option<u8> {
    if p == "tcp"@ {
        Some(6)
    } else if p == "udp"@ {
        Some(17)
    } else if p == "icmp"@ {
        Some(1)
    } else {
        None
    }
}

/// The words of a filter's match expression.
pub open spec fn match_words(c: HtbClass) -> Seq<Seq<char>> {
    (match c.match_dst_port {
        Some(p) => seq!["match"@, "ip"@, "dport"@, decimal(p as nat), "0xffff"@],
        None => Seq::empty(),
    }) + (match c.match_src_port {
        Some(p) => seq!["match"@, "ip"@, "sport"@, decimal(p as nat), "0xffff"@],
        None => Seq::empty(),
    }) + (match c.match_protocol {
        Some(p) => match protocol_number(p@) {
            Some(n) => seq!["match"@, "ip"@, "protocol"@, decimal(n as nat), "0xff"@],
            None => Seq::empty(),
        },
        None => Seq::empty(),
    })
}

/// The arguments of `tc` for a class's filter, or why there is none: the
/// class id must have a number after its colon, and the protocol, when
/// given, must be known.  A nonempty match expression is introduced by one
/// more `match` word.
pub open spec fn filter_args_spec(c: HtbClass) -> Result<Seq<Seq<char>>, QosError> {
    match class_number(c.class_id@) {
        None => Err(QosError::InvalidClassIdFormat),
        Some(num) => if parse_u32_spec(num) is None {
            Err(QosError::InvalidClassNumber)
        } else if c.match_protocol matches Some(p) && protocol_number(p@) is None {
            Err(QosError::UnknownProtocol)
        } else {
            Ok(
                seq![
                    "filter"@,
                    "add"@,
                    "dev"@,
                    c.interface@,
                    "parent"@,
                    "1:"@,
                    "protocol"@,
                    "ip"@,
                    "prio"@,
                    decimal(c.priority as nat),
                    "u32"@,
                ] + (if match_words(c).len() > 0 {
                    seq!["match"@] + match_words(c)
                } else {
                    Seq::empty()
                }) + seq!["flowid"@, c.class_id@],
            )
        },
    }
}

/// The arguments of `tc` that add an HTB class.
pub open spec fn htb_class_args_spec(c: HtbClass) -> Seq<Seq<char>> {
    seq![
        "class"@,
        "add"@,
        "dev"@,
        c.interface@,
        "parent"@,
        match c.parent {
            Some(p) => p@,
            None => "1:"@,
        },
        "classid"@,
        c.class_id@,
        "htb"@,
        "rate"@,
        c.rate@,
        "ceil"@,
        c.ceil@,
        "prio"@,
        decimal(c.priority as nat),
    ] + match c.burst {
        Some(b) => seq!["burst"@, b@],
        None => Seq::empty(),
    }
}

/// `s` without its colons.
pub open spec fn without_colons(s: Seq<char>) -> Seq<char>
    decreases s.len(),
{
    if s.len() == 0 {
        s
    } else if s.last() == ':' {
        without_colons(s.drop_last())
    } else {
        without_colons(s.drop_last()).push(s.last())
    }
}

/// The arguments of `tc` that give a class its fair-queueing leaf.
pub open spec fn leaf_qdisc_args_spec(c: HtbClass) -> Seq<Seq<char>> {
    seq![
        "qdisc"@,
        "add"@,
        "dev"@,
        c.interface@,
        "parent"@,
        c.class_id@,
        "handle"@,
        without_colons(c.class_id@) + "0:"@,
        "fq_codel"@,
    ]
}

fn strings_of(v: &[&str]) -> (r: Vec<String>)
    ensures
        r@.len() == v@.len(),
        forall|k: int| 0 <= k < v@.len() ==> (#[trigger] r@[k])@ == v@[k]@,
{
    let mut r: Vec<String> = Vec::new();
    let mut i: usize = 0;
    while i < v.len()
        invariant
            0 <= i <= v@.len(),
            r@.len() == i,
            forall|k: int| 0 <= k < i ==> (#[trigger] r@[k])@ == v@[k]@,
        decreases v.len() - i,
    {
        r.push(owned(v[i]));
        i = i + 1;
    }
    r
}

fn decimal_string_of(n: u64) -> (s: String)
    ensures
        s@ == decimal(n as nat),
{
    let mut s = String::new();
    push_decimal(&mut s, n);
    proof {
        assert(s@ =~= decimal(n as nat));
    }
    s
}

#[verifier::loop_isolation(false)]
fn parse_u32_range(v: &Vec<char>, lo: usize, hi: usize) -> (r: Option<u32>)
    requires
        lo <= hi <= v@.len(),
    ensures
        r == parse_u32_spec(v@.subrange(lo as int, hi as int)),
{
    let ghost s = v@.subrange(lo as int, hi as int);
    let start = if lo < hi && v[lo] == '+' {
        lo + 1
    } else {
        lo
    };
    let ghost d = v@.subrange(start as int, hi as int);
    proof {
        if lo < hi && v@[lo as int] == '+' {
            assert(s.skip(1) =~= d);
        } else {
            assert(s =~= d);
        }
        assert(d == unsigned_digits(s));
    }
    if start == hi {
        return None;
    }
    let mut val: u64 = 0;
    let mut k = start;
    while k < hi
        invariant
            start <= k <= hi <= v@.len(),
            d == v@.subrange(start as int, hi as int),
            forall|j: int| 0 <= j < k - start ==> is_digit(#[trigger] d[j]),
            val == digits_value(v@.subrange(start as int, k as int)),
            val <= u32::MAX,
        decreases hi - k,
    {
        let u = v[k] as u32;
        if u < 48 || u > 57 {
            proof {
                assert(!is_digit(d[k - start]));
                assert(!all_digits(d));
            }
            return None;
        }
        proof {
            assert(v@.subrange(start as int, k + 1).drop_last() =~= v@.subrange(start as int, k as int));
        }
        let next = val * 10 + (u - 48) as u64;
        if next > 4294967295u64 {
            proof {
                assert(v@.subrange(start as int, k + 1) =~= d.subrange(0, k - start + 1));
                if all_digits(d) {
                    lemma_digits_value_grows(d, (k - start + 1) as int);
                }
            }
            return None;
        }
        val = next;
        k = k + 1;
    }
    proof {
        assert(v@.subrange(start as int, k as int) =~= d);
    }
    Some(val as u32)
}

/// A numeral's value is at least that of each of its prefixes.
pub proof fn lemma_digits_value_grows(d: Seq<char>, n: int)
    requires
        0 <= n <= d.len(),
        forall|k: int| 0 <= k < d.len() ==> is_digit(#[trigger] d[k]),
    ensures
        digits_value(d.subrange(0, n)) <= digits_value(d),
    decreases d.len(),
{
    if n < d.len() {
        let init = d.drop_last();
        assert forall|k: int| 0 <= k < init.len() implies is_digit(#[trigger] init[k]) by {
            assert(init[k] == d[k]);
        }
        lemma_digits_value_grows(init, n);
        assert(init.subrange(0, n) =~= d.subrange(0, n));
    } else {
        assert(d.subrange(0, n) =~= d);
    }
}

fn class_number_range(v: &Vec<char>) -> (r: Option<(usize, usize)>)
    ensures
        match r {
            Some((a, b)) => a <= b <= v@.len() && class_number(v@) == Some(v@.subrange(a as int, b as int)),
            None => class_number(v@) is None,
        },
{
    let n = v.len();
    let mut i: usize = 0;
    proof {
        assert(v@.subrange(0, n as int) =~= v@);
    }
    while i < n && v[i] != ':'
        invariant
            0 <= i <= n == v@.len(),
            after_colon(v@.subrange(i as int, n as int)) == after_colon(v@),
        decreases n - i,
    {
        proof {
            assert(v@.subrange(i as int, n as int).drop_first() =~= v@.subrange(i + 1, n as int));
        }
        i = i + 1;
    }
    proof {
        assert(v@.subrange(0, n as int) =~= v@) by {
        }
    }
    if i == n {
        proof {
            assert(v@.subrange(n as int, n as int) =~= Seq::<char>::empty());
        }
        return None;
    }
    let a = i + 1;
    proof {
        assert(v@.subrange(i as int, n as int).drop_first() =~= v@.subrange(a as int, n as int));
    }
    let mut j = a;
    while j < n && v[j] != ':'
        invariant
            a <= j <= n == v@.len(),
            before_colon(v@.subrange(a as int, n as int)) == v@.subrange(a as int, j as int) + before_colon(
                v@.subrange(j as int, n as int),
            ),
        decreases n - j,
    {
        proof {
            let rest = v@.subrange(j as int, n as int);
            assert(rest.drop_first() =~= v@.subrange(j + 1, n as int));
            assert(v@.subrange(a as int, j + 1) =~= v@.subrange(a as int, j as int) + seq![v@[j as int]]);
            assert(v@.subrange(a as int, j as int) + before_colon(rest) =~= v@.subrange(a as int, j + 1)
                + before_colon(v@.subrange(j + 1, n as int)));
        }
        j = j + 1;
    }
    proof {
        assert(before_colon(v@.subrange(j as int, n as int)) =~= Seq::<char>::empty());
        assert(v@.subrange(a as int, j as int) + Seq::<char>::empty() =~= v@.subrange(a as int, j as int));
    }
    Some((a, j))
}

/// The `tc` steps of traffic shaping.
pub struct QosManager {}

impl QosManager {
    pub fn new() -> (m: QosManager) {
        QosManager {  }
    }

    /// The arguments of `tc` that remove the interface's root discipline.
    pub fn clear_interface_args(&self, interface: &str) -> (args: Vec<String>)
        ensures
            views(args@) == seq!["qdisc"@, "del"@, "dev"@, interface@, "root"@],
    {
        let args = strings_of(&["qdisc", "del", "dev", interface, "root"]);
        proof {
            assert(views(args@) =~= seq!["qdisc"@, "del"@, "dev"@, interface@, "root"@]);
        }
        args
    }

    /// The arguments of `tc` that give the interface an HTB root whose
    /// default class is 30.
    pub fn init_interface_args(&self, interface: &str) -> (args: Vec<String>)
        ensures
            views(args@) == seq![
                "qdisc"@,
                "add"@,
                "dev"@,
                interface@,
                "root"@,
                "handle"@,
                "1:"@,
                "htb"@,
                "default"@,
                "30"@,
            ],
    {
        let args = strings_of(&["qdisc", "add", "dev", interface, "root", "handle", "1:", "htb", "default", "30"]);
        proof {
            assert(views(args@) =~= seq![
                "qdisc"@,
                "add"@,
                "dev"@,
                interface@,
                "root"@,
                "handle"@,
                "1:"@,
                "htb"@,
                "default"@,
                "30"@,
            ]);
        }
        args
    }

    /// The arguments of `tc` that add the root class `1:1` at the link's
    /// rate of 1000 mbit.
    pub fn root_class_args(&self, interface: &str) -> (args: Vec<String>)
        ensures
            views(args@) == seq![
                "class"@,
                "add"@,
                "dev"@,
                interface@,
                "parent"@,
                "1:"@,
                "classid"@,
                "1:1"@,
                "htb"@,
                "rate"@,
                "1000mbit"@,
            ],
    {
        let args = strings_of(&["class", "add", "dev", interface, "parent", "1:", "classid", "1:1", "htb", "rate", "1000mbit"]);
        proof {
            assert(views(args@) =~= seq![
                "class"@,
                "add"@,
                "dev"@,
                interface@,
                "parent"@,
                "1:"@,
                "classid"@,
                "1:1"@,
                "htb"@,
                "rate"@,
                "1000mbit"@,
            ]);
        }
        args
    }

    /// The arguments of `tc` that add an HTB class.
    pub fn htb_class_args(&self, class: &HtbClass) -> (args: Vec<String>)
        ensures
            views(args@) == htb_class_args_spec(*class),
    {
        let parent: &str = match &class.parent {
            Some(p) => p.as_str(),
            None => "1:",
        };
        let mut args = strings_of(
            &[
                "class",
                "add",
                "dev",
                class.interface.as_str(),
                "parent",
                parent,
                "classid",
                class.class_id.as_str(),
                "htb",
                "rate",
                class.rate.as_str(),
                "ceil",
                class.ceil.as_str(),
                "prio",
            ],
        );
        args.push(decimal_string_of(class.priority as u64));
        match &class.burst {
            Some(b) => {
                args.push(owned("burst"));
                args.push(b.clone());
            },
            None => {},
        }
        proof {
            assert(views(args@) =~= htb_class_args_spec(*class));
        }
        args
    }

    /// The arguments of `tc` that give a class its fair-queueing leaf,
    /// whose handle is the class id without colons, then `0:`.
    pub fn leaf_qdisc_args(&self, class: &HtbClass) -> (args: Vec<String>)
        ensures
            views(args@) == leaf_qdisc_args_spec(*class),
    {
        let v = chars_of(class.class_id.as_str());
        let mut handle = String::new();
        let mut i: usize = 0;
        while i < v.len()
            invariant
                0 <= i <= v@.len(),
                v@ == class.class_id@,
                handle@ == without_colons(v@.subrange(0, i as int)),
            decreases v.len() - i,
        {
            proof {
                assert(v@.subrange(0, i + 1).drop_last() =~= v@.subrange(0, i as int));
            }
            if v[i] != ':' {
                crate::text::push_char(&mut handle, v[i]);
            }
            i = i + 1;
        }
        proof {
            assert(v@.subrange(0, v@.len() as int) =~= v@);
        }
        handle.append("0:");
        let args = strings_of(
            &[
                "qdisc",
                "add",
                "dev",
                class.interface.as_str(),
                "parent",
                class.class_id.as_str(),
                "handle",
                handle.as_str(),
                "fq_codel",
            ],
        );
        proof {
            assert(views(args@) =~= leaf_qdisc_args_spec(*class));
        }
        args
    }

    /// The arguments of `tc` for a class's filter; see `filter_args_spec`.
    pub fn filter_args(&self, class: &HtbClass) -> (r: Result<Vec<String>, QosError>)
        ensures
            match r {
                Ok(args) => filter_args_spec(*class) == Ok::<Seq<Seq<char>>, QosError>(views(args@)),
                Err(e) => filter_args_spec(*class) == Err::<Seq<Seq<char>>, QosError>(e),
            },
    {
        let id = chars_of(class.class_id.as_str());
        let (a, b) = match class_number_range(&id) {
            Some(range) => range,
            None => {
                return Err(QosError::InvalidClassIdFormat);
            },
        };
        if parse_u32_range(&id, a, b).is_none() {
            return Err(QosError::InvalidClassNumber);
        }
        let mut words: Vec<String> = Vec::new();
        match class.match_dst_port {
            Some(p) => {
                words.push(owned("match"));
                words.push(owned("ip"));
                words.push(owned("dport"));
                words.push(decimal_string_of(p as u64));
                words.push(owned("0xffff"));
            },
            None => {},
        }
        match class.match_src_port {
            Some(p) => {
                words.push(owned("match"));
                words.push(owned("ip"));
                words.push(owned("sport"));
                words.push(decimal_string_of(p as u64));
                words.push(owned("0xffff"));
            },
            None => {},
        }
        match &class.match_protocol {
            Some(p) => {
                let num: u8 = if crate::text::str_eq(p.as_str(), "tcp") {
                    6
                } else if crate::text::str_eq(p.as_str(), "udp") {
                    17
                } else if crate::text::str_eq(p.as_str(), "icmp") {
                    1
                } else {
                    return Err(QosError::UnknownProtocol);
                };
                words.push(owned("match"));
                words.push(owned("ip"));
                words.push(owned("protocol"));
                words.push(decimal_string_of(num as u64));
                words.push(owned("0xff"));
            },
            None => {},
        }
        proof {
            assert(views(words@) =~= match_words(*class));
        }
        let mut args = strings_of(
            &["filter", "add", "dev", class.interface.as_str(), "parent", "1:", "protocol", "ip", "prio"],
        );
        push_string(&mut args, decimal_string_of(class.priority as u64));
        push_string(&mut args, owned("u32"));
        let ghost head = views(args@);
        proof {
            assert(head =~= seq![
                "filter"@,
                "add"@,
                "dev"@,
                class.interface@,
                "parent"@,
                "1:"@,
                "protocol"@,
                "ip"@,
                "prio"@,
                decimal(class.priority as nat),
                "u32"@,
            ]);
        }
        if words.len() > 0 {
            push_string(&mut args, owned("match"));
            let mut k: usize = 0;
            let ghost with_match = views(args@);
            while k < words.len()
                invariant
                    0 <= k <= words@.len(),
                    views(args@) == with_match + views(words@).subrange(0, k as int),
                decreases words.len() - k,
            {
                push_string(&mut args, words[k].clone());
                proof {
                    assert(views(words@)[k as int] == words@[k as int]@);
                    assert(views(args@) =~= with_match + views(words@).subrange(0, k + 1));
                }
                k = k + 1;
            }
            proof {
                assert(views(words@).subrange(0, words@.len() as int) =~= views(words@));
                assert(views(args@) =~= head + (seq!["match"@] + match_words(*class)));
            }
        } else {
            proof {
                assert(views(args@) =~= head + Seq::<Seq<char>>::empty());
            }
        }
        let ghost mid = views(args@);
        push_string(&mut args, owned("flowid"));
        push_string(&mut args, class.class_id.clone());
        proof {
            assert(views(args@) =~= mid + seq!["flowid"@, class.class_id@]);
            assert(views(args@) =~= filter_args_spec(*class)->Ok_0);
        }
        Ok(args)
    }

    /// The arguments of `tc` that limit the upload rate with a token bucket
    /// (32 kbit burst, 400 ms latency); the download rate is not limited.
    pub fn bandwidth_limit_args(&self, limit: &BandwidthLimit) -> (args: Vec<String>)
        ensures
            views(args@) == seq![
                "qdisc"@,
                "add"@,
                "dev"@,
                limit.interface@,
                "root"@,
                "tbf"@,
                "rate"@,
                limit.upload_rate@,
                "burst"@,
                "32kbit"@,
                "latency"@,
                "400ms"@,
            ],
    {
        let args = strings_of(
            &[
                "qdisc",
                "add",
                "dev",
                limit.interface.as_str(),
                "root",
                "tbf",
                "rate",
                limit.upload_rate.as_str(),
                "burst",
                "32kbit",
                "latency",
                "400ms",
            ],
        );
        proof {
            assert(views(args@) =~= seq![
                "qdisc"@,
                "add"@,
                "dev"@,
                limit.interface@,
                "root"@,
                "tbf"@,
                "rate"@,
                limit.upload_rate@,
                "burst"@,
                "32kbit"@,
                "latency"@,
                "400ms"@,
            ]);
        }
        args
    }

    /// The arguments of `tc` that make CAKE the root discipline at the
    /// given bandwidth.
    pub fn cake_args(&self, interface: &str, bandwidth: &str) -> (args: Vec<String>)
        ensures
            views(args@) == seq![
                "qdisc"@,
                "add"@,
                "dev"@,
                interface@,
                "root"@,
                "cake"@,
                "bandwidth"@,
                bandwidth@,
                "triple-isolate"@,
                "diffserv4"@,
                "ack-filter"@,
            ],
    {
        let args = strings_of(
            &[
                "qdisc",
                "add",
                "dev",
                interface,
                "root",
                "cake",
                "bandwidth",
                bandwidth,
                "triple-isolate",
                "diffserv4",
                "ack-filter",
            ],
        );
        proof {
            assert(views(args@) =~= seq![
                "qdisc"@,
                "add"@,
                "dev"@,
                interface@,
                "root"@,
                "cake"@,
                "bandwidth"@,
                bandwidth@,
                "triple-isolate"@,
                "diffserv4"@,
                "ack-filter"@,
            ]);
        }
        args
    }

    /// The arguments of `tc` that make FQ-CoDel the root discipline.
    pub fn fq_codel_args(&self, interface: &str) -> (args: Vec<String>)
        ensures
            views(args@) == seq!["qdisc"@, "add"@, "dev"@, interface@, "root"@, "fq_codel"@],
    {
        let args = strings_of(&["qdisc", "add", "dev", interface, "root", "fq_codel"]);
        proof {
            assert(views(args@) =~= seq!["qdisc"@, "add"@, "dev"@, interface@, "root"@, "fq_codel"@]);
        }
        args
    }

    /// Egress shaping for gaming on an interface: an HTB rule of three
    /// classes under `1:1`, each bursting to 15k and capped at the total
    /// bandwidth — gaming (UDP, low-delay TOS, mark 1, 30 mbit, priority 0),
    /// streaming (TCP to port 443, mark 2, 40 mbit, priority 1) and bulk
    /// (high-throughput TOS, mark 3, 30 mbit, priority 7).
    pub fn create_gaming_preset(&self, interface: &str, total_bandwidth: &str) -> (r: ShapingRule)
        ensures
            r.name@ == "Gaming Priority"@,
            r.enabled,
            r.interface@ == interface@,
            r.direction == TrafficDirection::Egress,
            r.qdisc_type == QdiscType::Htb,
            r.classes@.len() == 3,
            forall|k: int| 0 <= k < 3 ==> {
                let c = #[trigger] r.classes@[k];
                &&& c.interface@ == interface@
                &&& c.parent matches Some(p) && p@ == "1:1"@
                &&& c.ceil@ == total_bandwidth@
                &&& c.burst matches Some(b) && b@ == "15k"@
                &&& c.match_src_port is None
                &&& c.match_dst_network is None
                &&& c.match_src_network is None
            },
            r.classes@[0].name@ == "Gaming"@,
            r.classes@[0].class_id@ == "1:10"@,
            r.classes@[0].rate@ == "30mbit"@,
            r.classes@[0].priority == 0,
            r.classes@[0].match_dst_port is None,
            r.classes@[0].match_protocol matches Some(p) && p@ == "udp"@,
            r.classes@[0].match_tos == Some(0x10u8),
            r.classes@[0].match_mark == Some(1u32),
            r.classes@[1].name@ == "Streaming"@,
            r.classes@[1].class_id@ == "1:20"@,
            r.classes@[1].rate@ == "40mbit"@,
            r.classes@[1].priority == 1,
            r.classes@[1].match_dst_port == Some(443u16),
            r.classes@[1].match_protocol matches Some(p) && p@ == "tcp"@,
            r.classes@[1].match_tos is None,
            r.classes@[1].match_mark == Some(2u32),
            r.classes@[2].name@ == "Bulk"@,
            r.classes@[2].class_id@ == "1:30"@,
            r.classes@[2].rate@ == "30mbit"@,
            r.classes@[2].priority == 7,
            r.classes@[2].match_dst_port is None,
            r.classes@[2].match_protocol is None,
            r.classes@[2].match_tos == Some(0x08u8),
            r.classes@[2].match_mark == Some(3u32),
    {
        let mut classes: Vec<HtbClass> = Vec::new();
        classes.push(
            HtbClass {
                name: owned("Gaming"),
                interface: owned(interface),
                parent: Some(owned("1:1")),
                class_id: owned("1:10"),
                rate: owned("30mbit"),
                ceil: owned(total_bandwidth),
                burst: Some(owned("15k")),
                priority: 0,
                match_dst_port: None,
                match_src_port: None,
                match_protocol: Some(owned("udp")),
                match_dst_network: None,
                match_src_network: None,
                match_tos: Some(0x10),
                match_mark: Some(1),
            },
        );
        classes.push(
            HtbClass {
                name: owned("Streaming"),
                interface: owned(interface),
                parent: Some(owned("1:1")),
                class_id: owned("1:20"),
                rate: owned("40mbit"),
                ceil: owned(total_bandwidth),
                burst: Some(owned("15k")),
                priority: 1,
                match_dst_port: Some(443),
                match_src_port: None,
                match_protocol: Some(owned("tcp")),
                match_dst_network: None,
                match_src_network: None,
                match_tos: None,
                match_mark: Some(2),
            },
        );
        classes.push(
            HtbClass {
                name: owned("Bulk"),
                interface: owned(interface),
                parent: Some(owned("1:1")),
                class_id: owned("1:30"),
                rate: owned("30mbit"),
                ceil: owned(total_bandwidth),
                burst: Some(owned("15k")),
                priority: 7,
                match_dst_port: None,
                match_src_port: None,
                match_protocol: None,
                match_dst_network: None,
                match_src_network: None,
                match_tos: Some(0x08),
                match_mark: Some(3),
            },
        );
        ShapingRule {
            name: owned("Gaming Priority"),
            enabled: true,
            interface: owned(interface),
            direction: TrafficDirection::Egress,
            qdisc_type: QdiscType::Htb,
            classes,
        }
    }

    /// Egress shaping for voice on an interface: one HTB class `1:10` under
    /// `1:1` for SIP (UDP to port 5060, expedited-forwarding TOS), 512 kbit
    /// guaranteed, 2 mbit ceiling, 10k burst, priority 0.
    pub fn create_voip_preset(&self, interface: &str) -> (r: ShapingRule)
        ensures
            r.name@ == "VoIP Priority"@,
            r.enabled,
            r.interface@ == interface@,
            r.direction == TrafficDirection::Egress,
            r.qdisc_type == QdiscType::Htb,
            r.classes@.len() == 1,
            r.classes@[0].name@ == "VoIP"@,
            r.classes@[0].interface@ == interface@,
            r.classes@[0].parent matches Some(p) && p@ == "1:1"@,
            r.classes@[0].class_id@ == "1:10"@,
            r.classes@[0].rate@ == "512kbit"@,
            r.classes@[0].ceil@ == "2mbit"@,
            r.classes@[0].burst matches Some(b) && b@ == "10k"@,
            r.classes@[0].priority == 0,
            r.classes@[0].match_dst_port == Some(5060u16),
            r.classes@[0].match_src_port is None,
            r.classes@[0].match_protocol matches Some(p) && p@ == "udp"@,
            r.classes@[0].match_dst_network is None,
            r.classes@[0].match_src_network is None,
            r.classes@[0].match_tos == Some(0xb8u8),
            r.classes@[0].match_mark is None,
    {
        let mut classes: Vec<HtbClass> = Vec::new();
        classes.push(
            HtbClass {
                name: owned("VoIP"),
                interface: owned(interface),
                parent: Some(owned("1:1")),
                class_id: owned("1:10"),
                rate: owned("512kbit"),
                ceil: owned("2mbit"),
                burst: Some(owned("10k")),
                priority: 0,
                match_dst_port: Some(5060),
                match_src_port: None,
                match_protocol: Some(owned("udp")),
                match_dst_network: None,
                match_src_network: None,
                match_tos: Some(0xb8),
                match_mark: None,
            },
        );
        ShapingRule {
            name: owned("VoIP Priority"),
            enabled: true,
            interface: owned(interface),
            direction: TrafficDirection::Egress,
            qdisc_type: QdiscType::Htb,
            classes,
        }
    }
}

impl Default for QosManager {
    fn default() -> (m: QosManager) {
        QosManager::new()
    }
}

/// A class with a well-formed id, a known or no protocol, and no port
/// matches gets a filter whose only match is its protocol.
pub proof fn lemma_filter_of_valid_class(c: HtbClass)
    requires
        class_number(c.class_id@) matches Some(n) && parse_u32_spec(n) is Some,
        c.match_protocol matches Some(p) && protocol_number(p@) is Some,
        c.match_dst_port is None,
        c.match_src_port is None,
    ensures
        filter_args_spec(c) is Ok,
        filter_args_spec(c)->Ok_0.len() == 11 + 1 + 5 + 2,
{
}

/// Filters match the IANA protocol numbers: TCP 6, UDP 17, ICMP 1; and no
/// two protocols share a number.
pub proof fn lemma_protocol_numbers_are_iana()
    ensures
        protocol_number("tcp"@) == Some(6u8),
        protocol_number("udp"@) == Some(17u8),
        protocol_number("icmp"@) == Some(1u8),
        forall|p: Seq<char>, q: Seq<char>|
            #[trigger] protocol_number(p) is Some && protocol_number(p) == #[trigger] protocol_number(q) ==> p == q,
{
    reveal_strlit("tcp");
    reveal_strlit("udp");
    reveal_strlit("icmp");
    assert("tcp"@ != "udp"@ && "tcp"@ != "icmp"@ && "udp"@ != "icmp"@) by {
        assert("tcp"@[0] != "udp"@[0]);
        assert("tcp"@[0] != "icmp"@[0]);
        assert("udp"@[0] != "icmp"@[0]);
    }
}

/// A filter of a class that matches a protocol carries that protocol's
/// number: its arguments hold `match ip protocol <number> 0xff`, after any
/// port matches.
pub proof fn lemma_filter_matches_protocol_number(c: HtbClass, p: String, a: Seq<Seq<char>>)
    requires
        c.match_protocol == Some(p),
        filter_args_spec(c) == Ok::<Seq<Seq<char>>, QosError>(a),
    ensures
        protocol_number(p@) matches Some(n) && exists|off: int|
            0 <= off && off + 5 <= a.len() && #[trigger] a.subrange(off, off + 5) == seq![
                "match"@,
                "ip"@,
                "protocol"@,
                decimal(n as nat),
                "0xff"@,
            ],
{
    let n = protocol_number(p@)->0;
    let mw = match_words(c);
    let ports = (match c.match_dst_port {
        Some(q) => seq!["match"@, "ip"@, "dport"@, decimal(q as nat), "0xffff"@],
        None => Seq::empty(),
    }) + (match c.match_src_port {
        Some(q) => seq!["match"@, "ip"@, "sport"@, decimal(q as nat), "0xffff"@],
        None => Seq::empty(),
    });
    let words = seq!["match"@, "ip"@, "protocol"@, decimal(n as nat), "0xff"@];
    assert(mw =~= ports + words);
    let head = seq![
        "filter"@,
        "add"@,
        "dev"@,
        c.interface@,
        "parent"@,
        "1:"@,
        "protocol"@,
        "ip"@,
        "prio"@,
        decimal(c.priority as nat),
        "u32"@,
    ];
    assert(a =~= head + (seq!["match"@] + mw) + seq!["flowid"@, c.class_id@]);
    let off: int = 12int + ports.len() as int;
    assert(a.subrange(off, off + 5) =~= words);
}

} // verus!
