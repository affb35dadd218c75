use vstd::prelude::*;

verus! {

/// Hands out request identifiers: each request of a run gets the next one.
#[derive(Debug, Clone, PartialEq, Eq)]
pub struct RequestCounter {
    /// The identifier the next request receives.
    pub next: usize,
}

impl RequestCounter {
    /// A fresh counter: the first request of a run gets identifier zero.
    pub fn new() -> (r: RequestCounter)
        ensures
            r.next == 0,
    {
        RequestCounter { next: 0 }
    }
}

/// A scalar parameter value of a method call.
#[derive(Debug, Clone, PartialEq, Eq)]
pub enum ParamValue {
    String(String),
    Bool(bool),
}

/// One named parameter of a method call.
#[derive(Debug, Clone, PartialEq, Eq)]
pub struct Param {
    pub name: String,
    pub value: ParamValue,
}

/// A method call request: `{ id, method, params }` on the wire.
#[derive(Debug, Clone, PartialEq, Eq)]
pub struct MethodCall {
    pub id: usize,
    pub method: String,
    pub params: Vec<Param>,
}

/// No two parameters share a name: the parameters form a map from name to value.
pub open spec fn distinct_names(ps: Seq<Param>) -> bool {
    forall|i: int, j: int| 0 <= i < ps.len() && 0 <= j < ps.len() && i != j ==> ps[i].name@ != ps[j].name@
}

impl MethodCall {
    pub open spec fn wf(&self) -> bool {
        distinct_names(self.params@)
    }

    /// A request for `method` with `params`, taking the counter's next identifier.
    pub fn new(counter: &mut RequestCounter, method: String, params: Vec<Param>) -> (r: MethodCall)
        requires
            old(counter).next < usize::MAX,
            distinct_names(params@),
        ensures
            r.wf(),
            r.id == old(counter).next,
            final(counter).next == old(counter).next + 1,
            r.method == method,
            r.params == params,
    {
        let id = counter.next;
        counter.next = counter.next + 1;
        MethodCall { id, method, params }
    }
}

/// A counter that starts at zero and goes up by one per call holds `k`
/// before call `k`.
proof fn lemma_counter_counts_calls(counters: Seq<usize>, k: int)
    requires
        0 <= k < counters.len(),
        counters[0] == 0,
        forall|j: int| 0 <= j < counters.len() - 1 ==> #[trigger] counters[j + 1] == counters[j] + 1,
    ensures
        counters[k] == k,
    decreases k,
{
    if k > 0 {
        lemma_counter_counts_calls(counters, k - 1);
        assert(counters[(k - 1) + 1] == counters[k - 1] + 1);
    }
}

/// Requests built one after another from one fresh counter, of whatever kind
/// (`MethodCall::new`, `RuntimeEval::new`, `RuntimeEval::poll`), carry the
/// identifiers 0, 1, 2, ... in call order: each call takes the value it
/// finds and leaves the counter one higher, so no identifier repeats.
pub proof fn lemma_ids_follow_call_order(ids: Seq<usize>, counters: Seq<usize>)
    requires
        counters.len() == ids.len() + 1,
        counters[0] == 0,
        forall|k: int|
            0 <= k < ids.len() ==> #[trigger] ids[k] == counters[k] && counters[k + 1]
                == counters[k] + 1,
    ensures
        forall|k: int| 0 <= k < ids.len() ==> #[trigger] ids[k] == k,
        forall|j: int, k: int| 0 <= j < k < ids.len() ==> ids[j] + 1 <= ids[k],
{
    assert forall|k: int| 0 <= k < ids.len() implies #[trigger] ids[k] == k by {
        assert forall|j: int| 0 <= j < counters.len() - 1 implies #[trigger] counters[j + 1]
            == counters[j] + 1 by {
            assert(ids[j] == counters[j]);
        };
        lemma_counter_counts_calls(counters, k);
    };
}

/// A script evaluation request.
#[derive(Debug, Clone, PartialEq, Eq)]
pub struct RuntimeEval(pub MethodCall);

/// The expression that reads variable `name` as its JSON text.
pub open spec fn poll_expression_of(name: Seq<char>) -> Seq<char> {
    "JSON.stringify("@ + name + ")"@
}

/// Builds the expression that reads variable `name` as its JSON text.
pub fn poll_expression(name: &str) -> (r: String)
    ensures
        r@ == poll_expression_of(name@),
{
    String::from_str("JSON.stringify(").concat(name).concat(")")
}

fn named(name: &str, value: ParamValue) -> (r: Param)
    ensures
        r.name@ == name@,
        r.value == value,
{
    Param { name: String::from_str(name), value }
}

impl RuntimeEval {
    /// A `Runtime.evaluate` request for `expression` that awaits a returned
    /// promise, includes the host's convenience bindings and bypasses the
    /// content security policy.
    pub fn new(counter: &mut RequestCounter, expression: &str) -> (r: RuntimeEval)
        requires
            old(counter).next < usize::MAX,
        ensures
            r.0.id == old(counter).next,
            final(counter).next == old(counter).next + 1,
            r.0.method@ == "Runtime.evaluate"@,
            r.0.params@.len() == 4,
            distinct_names(r.0.params@),
            r.0.params@[0].name@ == "awaitPromise"@,
            r.0.params@[0].value == ParamValue::Bool(true),
            r.0.params@[1].name@ == "includeCommandLineAPI"@,
            r.0.params@[1].value == ParamValue::Bool(true),
            r.0.params@[2].name@ == "allowUnsafeEvalBlockedByCSP"@,
            r.0.params@[2].value == ParamValue::Bool(true),
            r.0.params@[3].name@ == "expression"@,
            r.0.params@[3].value matches ParamValue::String(e) && e@ == expression@,
    {
        let mut params: Vec<Param> = Vec::new();
        params.push(named("awaitPromise", ParamValue::Bool(true)));
        params.push(named("includeCommandLineAPI", ParamValue::Bool(true)));
        params.push(named("allowUnsafeEvalBlockedByCSP", ParamValue::Bool(true)));
        params.push(named("expression", ParamValue::String(String::from_str(expression))));
        proof {
            reveal_strlit("awaitPromise");
            reveal_strlit("includeCommandLineAPI");
            reveal_strlit("allowUnsafeEvalBlockedByCSP");
            reveal_strlit("expression");
            assert(params@[0].name@.len() == 12);
            assert(params@[1].name@.len() == 21);
            assert(params@[2].name@.len() == 27);
            assert(params@[3].name@.len() == 10);
        }
        RuntimeEval(MethodCall::new(counter, String::from_str("Runtime.evaluate"), params))
    }

    /// The request that polls variable `name`: an evaluation of its JSON text.
    pub fn poll(counter: &mut RequestCounter, name: &str) -> (r: RuntimeEval)
        requires
            old(counter).next < usize::MAX,
        ensures
            r.0.id == old(counter).next,
            final(counter).next == old(counter).next + 1,
            r.0.method@ == "Runtime.evaluate"@,
            r.0.params@.len() == 4,
            distinct_names(r.0.params@),
            r.0.params@[0].name@ == "awaitPromise"@,
            r.0.params@[0].value == ParamValue::Bool(true),
            r.0.params@[1].name@ == "includeCommandLineAPI"@,
            r.0.params@[1].value == ParamValue::Bool(true),
            r.0.params@[2].name@ == "allowUnsafeEvalBlockedByCSP"@,
            r.0.params@[2].value == ParamValue::Bool(true),
            r.0.params@[3].name@ == "expression"@,
            r.0.params@[3].value matches ParamValue::String(e) && e@ == poll_expression_of(name@),
    {
        let expression = poll_expression(name);
        RuntimeEval::new(counter, expression.as_str())
    }
}

/// One entry of the debug manifest served at `/json`.
#[derive(Debug, Clone, PartialEq, Eq)]
pub struct DebugManifest {
    pub ws_debugger_url: String,
}

/// A named parameter of a protocol command.
#[derive(Debug, Clone, PartialEq, Eq)]
pub struct DomainCommandParam {
    pub name: String,
}

/// A command of a protocol domain.
#[derive(Debug, Clone, PartialEq, Eq)]
pub struct DomainCommand {
    pub name: String,
    pub parameters: Option<Vec<DomainCommandParam>>,
}

/// A protocol domain and its commands.
#[derive(Debug, Clone, PartialEq, Eq)]
pub struct Domain {
    pub domain: String,
    pub commands: Vec<DomainCommand>,
}

/// The protocol description served at `/json/protocol`.
#[derive(Debug, Clone, PartialEq, Eq)]
pub struct Protocol {
    pub domains: Vec<Domain>,
}

/// Why no debugger URL could be taken from the manifest.
#[derive(Debug, Clone, PartialEq, Eq)]
pub enum ManifestError {
    /// The manifest lists no target.
    NoManifest,
}

/// The parameter names, separated by `", "`.
pub open spec fn joined_names(ps: Seq<DomainCommandParam>) -> Seq<char>
    decreases ps.len(),
{
    if ps.len() == 0 {
        Seq::empty()
    } else if ps.len() == 1 {
        ps[0].name@
    } else {
        joined_names(ps.drop_last()) + ", "@ + ps.last().name@
    }
}

/// `.name(p1, p2, ...)`; a command without a parameter list shows `()`.
pub open spec fn command_text(c: DomainCommand) -> Seq<char> {
    "."@ + c.name@ + "("@ + match c.parameters {
        Some(ps) => joined_names(ps@),
        None => Seq::empty(),
    } + ")"@
}

/// The listing of one domain: its name, then each command indented.
pub open spec fn domain_lines(d: Domain) -> Seq<Seq<char>> {
    seq!["* "@ + d.domain@] + d.commands@.map_values(|c: DomainCommand| "  "@ + command_text(c))
}

/// The listing of all domains, in order.
pub open spec fn listing_lines(ds: Seq<Domain>) -> Seq<Seq<char>>
    decreases ds.len(),
{
    if ds.len() == 0 {
        Seq::empty()
    } else {
        listing_lines(ds.drop_last()) + domain_lines(ds.last())
    }
}

fn join_names(ps: &Vec<DomainCommandParam>) -> (r: String)
    ensures
        r@ == joined_names(ps@),
{
    let mut out = String::new();
    let mut i: usize = 0;
    while i < ps.len()
        invariant
            i <= ps.len(),
            out@ == joined_names(ps@.subrange(0, i as int)),
        decreases ps.len() - i,
    {
        assert(ps@.subrange(0, i + 1).drop_last() == ps@.subrange(0, i as int));
        if i > 0 {
            out.append(", ");
        } else {
            assert(out@ == Seq::<char>::empty());
        }
        out.append(ps[i].name.as_str());
        proof {
            if i == 0 {
                assert(out@ =~= ps@[0].name@);
            }
        }
        i += 1;
    }
    assert(ps@.subrange(0, ps.len() as int) == ps@);
    out
}

impl DomainCommand {
    /// The command as `.name(p1, p2, ...)`.
    pub fn display(&self) -> (r: String)
        ensures
            r@ == command_text(*self),
    {
        let args = match &self.parameters {
            Some(params) => join_names(params),
            None => String::new(),
        };
        String::from_str(".").concat(self.name.as_str()).concat("(").concat(args.as_str()).concat(")")
    }
}

/// The lines that list `domains`: for each domain a line `* name`, followed
/// by one line per command, indented by two spaces.
pub fn domain_listing(domains: &Vec<Domain>) -> (r: Vec<String>)
    ensures
        r@.map_values(|s: String| s@) == listing_lines(domains@),
{
    let mut out: Vec<String> = Vec::new();
    let mut i: usize = 0;
    while i < domains.len()
        invariant
            i <= domains.len(),
            out@.map_values(|s: String| s@) == listing_lines(domains@.subrange(0, i as int)),
        decreases domains.len() - i,
    {
        let d = &domains[i];
        let ghost start = out@.map_values(|s: String| s@);
        let ghost prev = out@;
        let header = String::from_str("* ").concat(d.domain.as_str());
        out.push(header);
        assert(out@.map_values(|s: String| s@) =~= start.push(header@));
        assert(d.commands@.subrange(0, 0).map_values(|c: DomainCommand| "  "@ + command_text(c))
            =~= Seq::<Seq<char>>::empty());
        assert(start + seq!["* "@ + d.domain@] + Seq::<Seq<char>>::empty() =~= start.push(header@));
        let mut k: usize = 0;
        while k < d.commands.len()
            invariant
                i < domains.len(),
                d == domains@[i as int],
                k <= d.commands.len(),
                out@.map_values(|s: String| s@) == start + seq!["* "@ + d.domain@]
                    + d.commands@.subrange(0, k as int).map_values(
                    |c: DomainCommand| "  "@ + command_text(c),
                ),
            decreases d.commands.len() - k,
        {
            let line = String::from_str("  ").concat(d.commands[k].display().as_str());
            let ghost prev = out@;
            out.push(line);
            assert(out@.map_values(|s: String| s@) =~= prev.map_values(|s: String| s@).push(
                line@,
            ));
            assert(d.commands@.subrange(0, k + 1).map_values(
                |c: DomainCommand| "  "@ + command_text(c),
            ) =~= d.commands@.subrange(0, k as int).map_values(
                |c: DomainCommand| "  "@ + command_text(c),
            ).push(line@));
            k += 1;
        }
        assert(d.commands@.subrange(0, d.commands.len() as int) == d.commands@);
        assert(domains@.subrange(0, i + 1).drop_last() == domains@.subrange(0, i as int));
        assert(start + seq!["* "@ + d.domain@] + d.commands@.map_values(
            |c: DomainCommand| "  "@ + command_text(c),
        ) =~= start + domain_lines(*d));
        i += 1;
    }
    assert(domains@.subrange(0, domains.len() as int) == domains@);
    out
}

/// The debugger URL of the first manifest entry; an empty manifest is an error.
pub fn select_debug_url(manifests: &Vec<DebugManifest>) -> (r: Result<String, ManifestError>)
    ensures
        manifests@.len() == 0 <==> r is Err,
        r matches Ok(url) ==> url@ == manifests@[0].ws_debugger_url@,
{
    if manifests.len() == 0 {
        return Err(ManifestError::NoManifest);
    }
    Ok(manifests[0].ws_debugger_url.clone())
}

/// The character of decimal digit `d`.
pub open spec fn digit_char(d: nat) -> char {
    if d == 0 { '0' } else if d == 1 { '1' } else if d == 2 { '2' } else if d == 3 { '3' }
    else if d == 4 { '4' } else if d == 5 { '5' } else if d == 6 { '6' } else if d == 7 { '7' }
    else if d == 8 { '8' } else { '9' }
}

/// The decimal digits of `n`, most significant first, without leading zeros.
pub open spec fn decimal(n: nat) -> Seq<char>
    decreases n,
{
    if n < 10 {
        seq![digit_char(n)]
    } else {
        decimal(n / 10).push(digit_char(n % 10))
    }
}

fn digit_str(d: u16) -> (r: &'static str)
    requires
        d < 10,
    ensures
        r@ == seq![digit_char(d as nat)],
{
    match d {
        0 => {
            proof {
                reveal_strlit("0");
            }
            "0"
        },
        1 => {
            proof {
                reveal_strlit("1");
            }
            "1"
        },
        2 => {
            proof {
                reveal_strlit("2");
            }
            "2"
        },
        3 => {
            proof {
                reveal_strlit("3");
            }
            "3"
        },
        4 => {
            proof {
                reveal_strlit("4");
            }
            "4"
        },
        5 => {
            proof {
                reveal_strlit("5");
            }
            "5"
        },
        6 => {
            proof {
                reveal_strlit("6");
            }
            "6"
        },
        7 => {
            proof {
                reveal_strlit("7");
            }
            "7"
        },
        8 => {
            proof {
                reveal_strlit("8");
            }
            "8"
        },
        _ => {
            proof {
                reveal_strlit("9");
            }
            "9"
        },
    }
}

/// The decimal text of `n`.
pub fn decimal_text(n: u16) -> (r: String)
    ensures
        r@ == decimal(n as nat),
    decreases n,
{
    if n < 10 {
        String::from_str(digit_str(n))
    } else {
        decimal_text(n / 10).concat(digit_str(n % 10))
    }
}

/// The address of the debug manifest of the inspector on `port`.
pub open spec fn manifest_url_of(port: u16) -> Seq<char> {
    "http://127.0.0.1:"@ + decimal(port as nat) + "/json"@
}

/// The address of the protocol description of the inspector on `port`.
pub open spec fn protocol_url_of(port: u16) -> Seq<char> {
    "http://127.0.0.1:"@ + decimal(port as nat) + "/json/protocol"@
}

/// Builds the address of the debug manifest of the inspector on `port`.
pub fn manifest_url(port: u16) -> (r: String)
    ensures
        r@ == manifest_url_of(port),
{
    String::from_str("http://127.0.0.1:").concat(decimal_text(port).as_str()).concat("/json")
}

/// Builds the address of the protocol description of the inspector on `port`.
pub fn protocol_url(port: u16) -> (r: String)
    ensures
        r@ == protocol_url_of(port),
{
    String::from_str("http://127.0.0.1:").concat(decimal_text(port).as_str()).concat(
        "/json/protocol",
    )
}

} // verus!
