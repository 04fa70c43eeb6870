//! What the engines share that run a server of their own: its log, the note of its
//! process number, and servers that an earlier run left behind.
use crate::engine;
use crate::engine::EngineKind;
use crate::platform::{below1, Os, Place, PlaceView, Root};
use crate::text;
use vstd::prelude::*;

verus! {

/// The file that the output of the server goes to.
pub fn log_path(kind: EngineKind) -> (p: Place)
    ensures
        p@ == (PlaceView {
            root: Root::Temporary,
            parts: seq!["murmure-"@ + kind.id_text() + ".log"@],
        }),
{
    let name = text::concat3("murmure-", kind.id(), ".log");
    below1(Root::Temporary, name.as_str())
}

/// The file that holds the process number of the server.
pub fn pid_path(kind: EngineKind) -> (p: Place)
    ensures
        p@ == (PlaceView {
            root: Root::Temporary,
            parts: seq!["murmure-"@ + kind.id_text() + ".pid"@],
        }),
{
    let name = text::concat3("murmure-", kind.id(), ".pid");
    below1(Root::Temporary, name.as_str())
}

/// The last `n` lines of a log; nothing where it cannot be read.
pub open spec fn tail_of(content: Option<Seq<char>>, n: nat) -> Seq<char> {
    match content {
        Some(s) => text::last_lines(s, n),
        None => Seq::empty(),
    }
}

/// The last `n` lines of a log; nothing where it cannot be read.
pub fn log_tail(content: Option<&str>, n: usize) -> (r: String)
    ensures
        r@ == tail_of(
            match content {
                Some(s) => Some(s@),
                None => None,
            },
            n as nat,
        ),
{
    match content {
        Some(s) => text::keep_last_lines(s, n),
        None => String::new(),
    }
}

/// What is to be done about a server that an earlier run may have left behind.
#[derive(Debug, Clone, PartialEq, Eq)]
pub enum StaleCheck {
    /// Nothing: there is no note of a process number.
    Nothing,
    /// Ask `program`, with the arguments `args`, what the process `pid` is.
    Ask { pid: u32, program: String, args: Vec<String> },
}

/// The program that tells what a process is, and its arguments.
pub open spec fn query_line(os: Os, pid: u32) -> (Seq<char>, Seq<Seq<char>>) {
    let number = text::decimal(pid as nat);
    if os == Os::Windows {
        ("tasklist"@, seq!["/FI"@, "PID eq "@ + number, "/FO"@, "CSV"@, "/NH"@])
    } else {
        ("ps"@, seq!["-p"@, number, "-o"@, "command="@])
    }
}

/// The program that ends a process, and its arguments.
pub open spec fn kill_line(os: Os, pid: u32) -> (Seq<char>, Seq<Seq<char>>) {
    let number = text::decimal(pid as nat);
    if os == Os::Windows {
        ("taskkill"@, seq!["/PID"@, number, "/F"@])
    } else {
        ("kill"@, seq![number])
    }
}

/// The process number that a note holds.
pub open spec fn noted_pid(note: Option<Seq<char>>) -> Option<nat> {
    match note {
        Some(s) => text::number(text::trimmed(s)),
        None => None,
    }
}

/// What is to be done about a server that an earlier run may have left behind,
/// given the note of its process number.
pub fn check_stale(os: Os, note: Option<&str>) -> (r: StaleCheck)
    ensures
        match r {
            StaleCheck::Nothing => noted_pid(
                match note {
                    Some(s) => Some(s@),
                    None => None,
                },
            ) is None,
            StaleCheck::Ask { pid, program, args } => noted_pid(
                match note {
                    Some(s) => Some(s@),
                    None => None,
                },
            ) == Some(pid as nat) && (program@, text::texts(args@)) == query_line(os, pid),
        },
{
    match note {
        None => StaleCheck::Nothing,
        Some(s) => {
            let t = text::trim(s);
            match text::parse_number(t.as_str()) {
                None => StaleCheck::Nothing,
                Some(pid) => {
                    let number = text::decimal_of(pid as u64);
                    if os == Os::Windows {
                        let which = text::concat("PID eq ", number.as_str());
                        let args = vec![
                            "/FI".to_string(),
                            which,
                            "/FO".to_string(),
                            "CSV".to_string(),
                            "/NH".to_string(),
                        ];
                        assert(text::texts(args@) == query_line(os, pid).1);
                        StaleCheck::Ask { pid, program: "tasklist".to_string(), args }
                    } else {
                        let args = vec![
                            "-p".to_string(),
                            number,
                            "-o".to_string(),
                            "command=".to_string(),
                        ];
                        assert(text::texts(args@) == query_line(os, pid).1);
                        StaleCheck::Ask { pid, program: "ps".to_string(), args }
                    }
                },
            }
        },
    }
}

/// Whether the description of a process is that of a server of ours: it names the
/// program, on Windows in any case of letters, or elsewhere holds `marker`.
pub open spec fn is_ours(kind: EngineKind, os: Os, marker: Seq<char>, shown: Seq<char>) -> bool {
    if os == Os::Windows {
        text::has(text::lowercase(shown), kind.binary_text())
    } else {
        text::has(shown, marker)
    }
}

/// Whether the description of a process is that of a server of ours.
pub fn named(kind: EngineKind, os: Os, marker: &str, shown: &str) -> (b: bool)
    ensures
        b == is_ours(kind, os, marker@, shown@),
{
    if os == Os::Windows {
        let lower = text::to_lowercase(shown);
        text::contains(lower.as_str(), kind.binary())
    } else {
        text::contains(shown, marker)
    }
}

/// How the process `pid` is ended: the program, and its arguments.
fn kill_command(os: Os, pid: u32) -> (r: (String, Vec<String>))
    ensures
        (r.0@, text::texts(r.1@)) == kill_line(os, pid),
{
    let number = text::decimal_of(pid as u64);
    if os == Os::Windows {
        let args = vec!["/PID".to_string(), number, "/F".to_string()];
        assert(text::texts(args@) == kill_line(os, pid).1);
        ("taskkill".to_string(), args)
    } else {
        let args = vec![number];
        assert(text::texts(args@) == kill_line(os, pid).1);
        ("kill".to_string(), args)
    }
}

/// How the process `pid`, which an earlier run may have left behind, is ended,
/// given what the program that was asked for it has printed, if it could be asked:
/// the program to call, and its arguments. A process that is not a server of ours
/// is left alone.
pub fn kill_stale(kind: EngineKind, os: Os, marker: &str, pid: u32, output: Option<&Vec<u8>>) -> (r:
    Option<(String, Vec<String>)>)
    ensures
        r is Some <==> output is Some && is_ours(
            kind,
            os,
            marker@,
            text::utf8_lossy(output.unwrap()@),
        ),
        r matches Some(c) ==> (c.0@, text::texts(c.1@)) == kill_line(os, pid),
{
    match output {
        Some(bytes) => {
            let shown = text::from_utf8_lossy(bytes.as_slice());
            if named(kind, os, marker, shown.as_str()) {
                Some(kill_command(os, pid))
            } else {
                None
            }
        },
        None => None,
    }
}

/// The files of two engines are never the same.
pub proof fn files_are_not_shared(a: EngineKind, b: EngineKind)
    ensures
        "murmure-"@ + a.id_text() + ".log"@ == "murmure-"@ + b.id_text() + ".log"@ ==> a == b,
        "murmure-"@ + a.id_text() + ".pid"@ == "murmure-"@ + b.id_text() + ".pid"@ ==> a == b,
{
    if "murmure-"@ + a.id_text() + ".log"@ == "murmure-"@ + b.id_text() + ".log"@ {
        lemma_between(a.id_text(), b.id_text(), "murmure-"@, ".log"@);
    }
    if "murmure-"@ + a.id_text() + ".pid"@ == "murmure-"@ + b.id_text() + ".pid"@ {
        lemma_between(a.id_text(), b.id_text(), "murmure-"@, ".pid"@);
    }
    engine::identifiers_are_distinct(a, b);
}

proof fn lemma_between(a: Seq<char>, b: Seq<char>, before: Seq<char>, after: Seq<char>)
    requires
        before + a + after == before + b + after,
    ensures
        a == b,
{
    let (x, y) = (before + a + after, before + b + after);
    assert(x.len() == before.len() + a.len() + after.len());
    assert(y.len() == before.len() + b.len() + after.len());
    assert(x.subrange(before.len() as int, before.len() as int + a.len()) == a);
    assert(y.subrange(before.len() as int, before.len() as int + b.len()) == b);
}

/// The number of a process that was noted is read back, whatever white space stands around
/// it.
pub proof fn noted_processes_are_read_back(pid: u32, before: Seq<char>, after: Seq<char>)
    requires
        forall|i: int| 0 <= i < before.len() ==> text::is_white(#[trigger] before[i]),
        forall|i: int| 0 <= i < after.len() ==> text::is_white(#[trigger] after[i]),
    ensures
        noted_pid(Some(before + text::decimal(pid as nat) + after)) == Some(pid as nat),
        noted_pid(None) is None,
{
    let d = text::decimal(pid as nat);
    let s = before + d + after;
    let a = before.len() as int;
    let b = a + d.len();
    text::decimals_read_back(pid as nat);
    lemma_digits_are_dark(pid as nat);
    assert forall|i: int| 0 <= i < a implies text::is_white(#[trigger] s[i]) by {
        assert(s[i] == before[i]);
    }
    assert forall|i: int| b <= i < s.len() implies text::is_white(#[trigger] s[i]) by {
        assert(s[i] == after[i - b]);
    }
    assert(s[a] == d[0]);
    assert(s[b - 1] == d[d.len() - 1]);
    text::trimming_takes_off_white_ends(s, a, b);
    assert(s.subrange(a, b) == d);
}

proof fn lemma_digits_are_dark(n: nat)
    ensures
        text::decimal(n).len() > 0,
        forall|i: int|
            0 <= i < text::decimal(n).len() ==> !text::is_white(#[trigger] text::decimal(n)[i]),
    decreases n,
{
    if n >= 10 {
        lemma_digits_are_dark(n / 10);
    }
}

/// A process is ended by its own number, which stands in the command as a word of its own.
pub proof fn processes_are_ended_by_number(os: Os, pid: u32)
    ensures
        kill_line(os, pid).1.contains(text::decimal(pid as nat)),
        os == Os::Windows ==> kill_line(os, pid).0 == "taskkill"@ && kill_line(os, pid).1
            == seq!["/PID"@, text::decimal(pid as nat), "/F"@],
        os != Os::Windows ==> kill_line(os, pid).0 == "kill"@ && kill_line(os, pid).1
            == seq![text::decimal(pid as nat)],
        os != Os::Windows ==> query_line(os, pid).0 == "ps"@ && query_line(os, pid).1[1]
            == text::decimal(pid as nat),
        os == Os::Windows ==> query_line(os, pid).0 == "tasklist"@ && query_line(os, pid).1[1]
            == "PID eq "@ + text::decimal(pid as nat),
{
    if os == Os::Windows {
        assert(kill_line(os, pid).1[1] == text::decimal(pid as nat));
    } else {
        assert(kill_line(os, pid).1[0] == text::decimal(pid as nat));
    }
}

/// A process is taken for the engine only where what is shown of it names the engine: by
/// its program on Windows, by its marker elsewhere.
pub proof fn other_processes_are_not_taken(
    kind: EngineKind,
    os: Os,
    marker: Seq<char>,
    shown: Seq<char>,
)
    ensures
        os == Os::Windows ==> (is_ours(kind, os, marker, shown) <==> text::has(
            text::lowercase(shown),
            kind.binary_text(),
        )),
        os != Os::Windows ==> (is_ours(kind, os, marker, shown) <==> text::has(shown, marker)),
{
}

}
