//! The bundled SNOBOL4 demo programs.
use vstd::prelude::*;
use vstd::string::*;

verus! {

/// A bundled demo program.
pub struct Demo {
    /// Display name shown in the demo menu.
    pub name: &'static str,
    /// SNOBOL4 source code.
    pub source: &'static str,
    /// Optional input data preloaded into the data area.
    pub data: Option<&'static str>,
}
/// Source of the `array` demo.
pub const ARRAY_SOURCE: &'static str =
    "        NAMES = ARRAY('1:50')\n        NAMES<1> = 'Alice'\n        NAMES<2> = 'Bob'\n        NAMES<3> = 'Carol'\n        OUTPUT = NAMES<1>\n        OUTPUT = NAMES<2>\n        OUTPUT = NAMES<3>\nEND\n";
/// Source of the `break` demo.
pub const BREAK_SOURCE: &'static str =
    "        LINE = 'Alice|F|English'\n        LINE BREAK('|') . NAME '|' BREAK('|') . SEX '|' REM . MAJOR :F(NO)\n        OUTPUT = NAME\n        OUTPUT = SEX\n        OUTPUT = MAJOR :(END)\nNO     OUTPUT = 'parse failed'\nEND\n";
/// Source of the `concat` demo.
pub const CONCAT_SOURCE: &'static str =
    "        NAME = 'World'\n        OUTPUT = 'Hello, ' NAME '!'\nEND\n";
/// Source of the `count` demo.
pub const COUNT_SOURCE: &'static str =
    "        N = 1\nLOOP   OUTPUT = N\n        N = N + 1\n        OUTPUT = N\n        OUTPUT = N + 1\nEND\n";
/// Source of the `fizzbuzz` demo.
pub const FIZZBUZZ_SOURCE: &'static str =
    "* FizzBuzz 1..15 in SNOBOL4\n N = 1\nL R = REMDR(N,15)\n EQ(R,0) :S(A)\n R = REMDR(N,3)\n EQ(R,0) :S(B)\n R = REMDR(N,5)\n EQ(R,0) :S(C)\n OUTPUT = N :(I)\nA OUTPUT = 'FizzBuzz' :(I)\nB OUTPUT = 'Fizz' :(I)\nC OUTPUT = 'Buzz'\nI N = N + 1\n LE(N,15) :S(L)\nEND\n";
/// Source of the `hello` demo.
pub const HELLO_SOURCE: &'static str =
    "        OUTPUT = 'Hello, World!'\nEND\n";
/// Source of the `hello-goto` demo.
pub const HELLO_GOTO_SOURCE: &'static str =
    "        OUTPUT = 'Hello, World!' :(END)\n        OUTPUT = 'This should not print'\nEND\n";
/// Source of the `input` demo.
pub const INPUT_SOURCE: &'static str =
    "READ   LINE = INPUT                :F(DONE)\n        OUTPUT = LINE               :(READ)\nDONE   OUTPUT = 'End of input'\nEND\n";
/// Source of the `multiply` demo.
pub const MULTIPLY_SOURCE: &'static str =
    "        X = 7\n        Y = X * 6\n        OUTPUT = Y\nEND\n";
/// Source of the `span` demo.
pub const SPAN_SOURCE: &'static str =
    "        DIGITS = SPAN('0123456789')\n        TEXT = 'abc 123 xyz'\n        TEXT DIGITS . N :F(NO)\n        OUTPUT = N :(END)\nNO     OUTPUT = 'no match'\nEND\n";
/// Source of the `span-fail` demo.
pub const SPAN_FAIL_SOURCE: &'static str =
    "        DIGITS = SPAN('0123456789')\n        TEXT = 'abc xyz'\n        TEXT DIGITS . N :F(NO)\n        OUTPUT = N :(END)\nNO     OUTPUT = 'no match'\nEND\n";
/// Input data of the `input` demo.
pub const INPUT_DATA: &'static str = "Hello\nWorld\nGoodbye\n";
/// Display names of the bundled demos, in menu order.
pub open spec fn demo_names() -> Seq<Seq<char>> {
    seq![
        "array"@,
        "break"@,
        "concat"@,
        "count"@,
        "fizzbuzz"@,
        "hello"@,
        "hello-goto"@,
        "input"@,
        "multiply"@,
        "span"@,
        "span-fail"@,
    ]
}
/// Sources of the bundled demos, in menu order.
pub open spec fn demo_sources() -> Seq<Seq<char>> {
    seq![
        ARRAY_SOURCE@,
        BREAK_SOURCE@,
        CONCAT_SOURCE@,
        COUNT_SOURCE@,
        FIZZBUZZ_SOURCE@,
        HELLO_SOURCE@,
        HELLO_GOTO_SOURCE@,
        INPUT_SOURCE@,
        MULTIPLY_SOURCE@,
        SPAN_SOURCE@,
        SPAN_FAIL_SOURCE@,
    ]
}
/// Input data of the bundled demos, in menu order: only `input` has any.
pub open spec fn demo_data(i: int) -> Option<Seq<char>> {
    if demo_names()[i] == "input"@ {
        Some(INPUT_DATA@)
    } else {
        None
    }
}

/// Whether `d` is the demo at position `i` of the table.
pub open spec fn is_demo(d: Demo, i: int) -> bool {
    &&& d.name@ == demo_names()[i]
    &&& d.source@ == demo_sources()[i]
    &&& match d.data {
        Some(t) => demo_data(i) == Some(t@),
        None => demo_data(i) is None,
    }
}

/// All bundled demos, sorted alphabetically by display name.
pub fn demos() -> (table: Vec<Demo>)
    ensures
        table@.len() == demo_names().len(),
        forall|i: int| 0 <= i < table@.len() ==> is_demo(#[trigger] table@[i], i),
{
    let mut table: Vec<Demo> = Vec::new();
    table.push(Demo { name: "array", source: ARRAY_SOURCE, data: None });
    table.push(Demo { name: "break", source: BREAK_SOURCE, data: None });
    table.push(Demo { name: "concat", source: CONCAT_SOURCE, data: None });
    table.push(Demo { name: "count", source: COUNT_SOURCE, data: None });
    table.push(Demo { name: "fizzbuzz", source: FIZZBUZZ_SOURCE, data: None });
    table.push(Demo { name: "hello", source: HELLO_SOURCE, data: None });
    table.push(Demo { name: "hello-goto", source: HELLO_GOTO_SOURCE, data: None });
    table.push(Demo { name: "input", source: INPUT_SOURCE, data: Some(INPUT_DATA) });
    table.push(Demo { name: "multiply", source: MULTIPLY_SOURCE, data: None });
    table.push(Demo { name: "span", source: SPAN_SOURCE, data: None });
    table.push(Demo { name: "span-fail", source: SPAN_FAIL_SOURCE, data: None });
    proof {
        reveal_strlit("array");
        reveal_strlit("break");
        reveal_strlit("concat");
        reveal_strlit("count");
        reveal_strlit("fizzbuzz");
        reveal_strlit("hello");
        reveal_strlit("hello-goto");
        reveal_strlit("input");
        reveal_strlit("multiply");
        reveal_strlit("span");
        reveal_strlit("span-fail");
        assert forall|i: int| 0 <= i < table@.len() implies is_demo(#[trigger] table@[i], i) by {
            assert("input"@[0] == 'i');
            if i != 7 {
                assert(demo_names()[i][0] != 'i');
            }
        }
    }
    table
}

/// Name of the demo selected when the page loads.
pub const DEFAULT_DEMO: &'static str = "hello";

/// Strict lexicographic order of texts by code point: the order of `<` on
/// `str`.
pub open spec fn text_lt(a: Seq<char>, b: Seq<char>) -> bool
    decreases a.len(),
{
    if a.len() == 0 {
        b.len() > 0
    } else if b.len() == 0 {
        false
    } else if (a[0] as u32) < (b[0] as u32) {
        true
    } else if a[0] == b[0] {
        text_lt(a.drop_first(), b.drop_first())
    } else {
        false
    }
}

proof fn lemma_text_lt_transitive(a: Seq<char>, b: Seq<char>, c: Seq<char>)
    requires
        text_lt(a, b),
        text_lt(b, c),
    ensures
        text_lt(a, c),
    decreases a.len(),
{
    if a.len() > 0 && b.len() > 0 && c.len() > 0 && a[0] == b[0] && b[0] == c[0] {
        lemma_text_lt_transitive(a.drop_first(), b.drop_first(), c.drop_first());
    }
}

proof fn lemma_sorted_from_neighbours(s: Seq<Seq<char>>, j: int)
    requires
        0 <= j < s.len(),
        forall|k: int| 0 <= k < s.len() - 1 ==> text_lt(#[trigger] s[k], s[k + 1]),
    ensures
        forall|i: int| 0 <= i < j ==> text_lt(#[trigger] s[i], s[j]),
    decreases j,
{
    if j > 0 {
        lemma_sorted_from_neighbours(s, j - 1);
        assert forall|i: int| 0 <= i < j implies text_lt(#[trigger] s[i], s[j]) by {
            assert(text_lt(s[j - 1], s[j]));
            if i < j - 1 {
                lemma_text_lt_transitive(s[i], s[j - 1], s[j]);
            }
        }
    }
}

/// The bundled demos are sorted alphabetically by display name, with no
/// name twice.
pub proof fn lemma_demos_sorted()
    ensures
        forall|i: int, j: int|
            0 <= i < j < demo_names().len() ==> text_lt(
                #[trigger] demo_names()[i],
                #[trigger] demo_names()[j],
            ),
{
    reveal_strlit("array");
    reveal_strlit("break");
    reveal_strlit("concat");
    reveal_strlit("count");
    reveal_strlit("fizzbuzz");
    reveal_strlit("hello");
    reveal_strlit("hello-goto");
    reveal_strlit("input");
    reveal_strlit("multiply");
    reveal_strlit("span");
    reveal_strlit("span-fail");
    assert(text_lt(demo_names()[0], demo_names()[1])) by {
        reveal_with_fuel(text_lt, 12);
    }
    assert(text_lt(demo_names()[1], demo_names()[2])) by {
        reveal_with_fuel(text_lt, 12);
    }
    assert(text_lt(demo_names()[2], demo_names()[3])) by {
        reveal_with_fuel(text_lt, 12);
    }
    assert(text_lt(demo_names()[3], demo_names()[4])) by {
        reveal_with_fuel(text_lt, 12);
    }
    assert(text_lt(demo_names()[4], demo_names()[5])) by {
        reveal_with_fuel(text_lt, 12);
    }
    assert(text_lt(demo_names()[5], demo_names()[6])) by {
        reveal_with_fuel(text_lt, 12);
    }
    assert(text_lt(demo_names()[6], demo_names()[7])) by {
        reveal_with_fuel(text_lt, 12);
    }
    assert(text_lt(demo_names()[7], demo_names()[8])) by {
        reveal_with_fuel(text_lt, 12);
    }
    assert(text_lt(demo_names()[8], demo_names()[9])) by {
        reveal_with_fuel(text_lt, 12);
    }
    assert(text_lt(demo_names()[9], demo_names()[10])) by {
        reveal_with_fuel(text_lt, 12);
    }
    assert forall|i: int, j: int|
        0 <= i < j < demo_names().len() implies text_lt(
            #[trigger] demo_names()[i],
            #[trigger] demo_names()[j],
        ) by {
        lemma_sorted_from_neighbours(demo_names(), j);
    }
}

proof fn lemma_text_lt_irreflexive(a: Seq<char>)
    ensures
        !text_lt(a, a),
    decreases a.len(),
{
    if a.len() > 0 {
        lemma_text_lt_irreflexive(a.drop_first());
    }
}

/// No two demos share a name: the demo named like the `k`-th one is the
/// `k`-th one.
pub proof fn lemma_demo_names_distinct(i: int, k: int)
    requires
        0 <= i < demo_names().len(),
        0 <= k < demo_names().len(),
        demo_names()[i] == demo_names()[k],
    ensures
        i == k,
{
    lemma_demos_sorted();
    lemma_text_lt_irreflexive(demo_names()[i]);
    if i < k {
        assert(text_lt(demo_names()[i], demo_names()[k]));
    } else if k < i {
        assert(text_lt(demo_names()[k], demo_names()[i]));
    }
}

/// Each menu entry carries the program of its own name, and only the
/// `input` demo brings input data, `INPUT_DATA`.
pub proof fn lemma_demo_sources_by_name()
    ensures
        forall|i: int|
            0 <= i < demo_names().len() && #[trigger] demo_names()[i] == "array"@ ==> demo_sources()[i]
                == ARRAY_SOURCE@,
        forall|i: int|
            0 <= i < demo_names().len() && #[trigger] demo_names()[i] == "break"@ ==> demo_sources()[i]
                == BREAK_SOURCE@,
        forall|i: int|
            0 <= i < demo_names().len() && #[trigger] demo_names()[i] == "concat"@ ==> demo_sources()[i]
                == CONCAT_SOURCE@,
        forall|i: int|
            0 <= i < demo_names().len() && #[trigger] demo_names()[i] == "count"@ ==> demo_sources()[i]
                == COUNT_SOURCE@,
        forall|i: int|
            0 <= i < demo_names().len() && #[trigger] demo_names()[i] == "fizzbuzz"@ ==> demo_sources()[i]
                == FIZZBUZZ_SOURCE@,
        forall|i: int|
            0 <= i < demo_names().len() && #[trigger] demo_names()[i] == "hello"@ ==> demo_sources()[i]
                == HELLO_SOURCE@,
        forall|i: int|
            0 <= i < demo_names().len() && #[trigger] demo_names()[i] == "hello-goto"@ ==> demo_sources()[i]
                == HELLO_GOTO_SOURCE@,
        forall|i: int|
            0 <= i < demo_names().len() && #[trigger] demo_names()[i] == "input"@ ==> demo_sources()[i]
                == INPUT_SOURCE@,
        forall|i: int|
            0 <= i < demo_names().len() && #[trigger] demo_names()[i] == "multiply"@ ==> demo_sources()[i]
                == MULTIPLY_SOURCE@,
        forall|i: int|
            0 <= i < demo_names().len() && #[trigger] demo_names()[i] == "span"@ ==> demo_sources()[i]
                == SPAN_SOURCE@,
        forall|i: int|
            0 <= i < demo_names().len() && #[trigger] demo_names()[i] == "span-fail"@ ==> demo_sources()[i]
                == SPAN_FAIL_SOURCE@,
        forall|i: int|
            0 <= i < demo_names().len() ==> (demo_data(i) is Some <==> #[trigger] demo_names()[i]
                == "input"@),
        forall|i: int|
            0 <= i < demo_names().len() && #[trigger] demo_names()[i] == "input"@ ==> demo_data(i)
                == Some(INPUT_DATA@),
{
    assert forall|i: int|
        0 <= i < demo_names().len() && #[trigger] demo_names()[i] == "array"@ implies demo_sources()[i]
            == ARRAY_SOURCE@ by {
        assert(demo_names()[0] == "array"@);
        lemma_demo_names_distinct(i, 0);
    }
    assert forall|i: int|
        0 <= i < demo_names().len() && #[trigger] demo_names()[i] == "break"@ implies demo_sources()[i]
            == BREAK_SOURCE@ by {
        assert(demo_names()[1] == "break"@);
        lemma_demo_names_distinct(i, 1);
    }
    assert forall|i: int|
        0 <= i < demo_names().len() && #[trigger] demo_names()[i] == "concat"@ implies demo_sources()[i]
            == CONCAT_SOURCE@ by {
        assert(demo_names()[2] == "concat"@);
        lemma_demo_names_distinct(i, 2);
    }
    assert forall|i: int|
        0 <= i < demo_names().len() && #[trigger] demo_names()[i] == "count"@ implies demo_sources()[i]
            == COUNT_SOURCE@ by {
        assert(demo_names()[3] == "count"@);
        lemma_demo_names_distinct(i, 3);
    }
    assert forall|i: int|
        0 <= i < demo_names().len() && #[trigger] demo_names()[i] == "fizzbuzz"@ implies demo_sources()[i]
            == FIZZBUZZ_SOURCE@ by {
        assert(demo_names()[4] == "fizzbuzz"@);
        lemma_demo_names_distinct(i, 4);
    }
    assert forall|i: int|
        0 <= i < demo_names().len() && #[trigger] demo_names()[i] == "hello"@ implies demo_sources()[i]
            == HELLO_SOURCE@ by {
        assert(demo_names()[5] == "hello"@);
        lemma_demo_names_distinct(i, 5);
    }
    assert forall|i: int|
        0 <= i < demo_names().len() && #[trigger] demo_names()[i] == "hello-goto"@ implies demo_sources()[i]
            == HELLO_GOTO_SOURCE@ by {
        assert(demo_names()[6] == "hello-goto"@);
        lemma_demo_names_distinct(i, 6);
    }
    assert forall|i: int|
        0 <= i < demo_names().len() && #[trigger] demo_names()[i] == "input"@ implies demo_sources()[i]
            == INPUT_SOURCE@ by {
        assert(demo_names()[7] == "input"@);
        lemma_demo_names_distinct(i, 7);
    }
    assert forall|i: int|
        0 <= i < demo_names().len() && #[trigger] demo_names()[i] == "multiply"@ implies demo_sources()[i]
            == MULTIPLY_SOURCE@ by {
        assert(demo_names()[8] == "multiply"@);
        lemma_demo_names_distinct(i, 8);
    }
    assert forall|i: int|
        0 <= i < demo_names().len() && #[trigger] demo_names()[i] == "span"@ implies demo_sources()[i]
            == SPAN_SOURCE@ by {
        assert(demo_names()[9] == "span"@);
        lemma_demo_names_distinct(i, 9);
    }
    assert forall|i: int|
        0 <= i < demo_names().len() && #[trigger] demo_names()[i] == "span-fail"@ implies demo_sources()[i]
            == SPAN_FAIL_SOURCE@ by {
        assert(demo_names()[10] == "span-fail"@);
        lemma_demo_names_distinct(i, 10);
    }
    assert forall|i: int| 0 <= i < demo_names().len() implies (demo_data(i) is Some <==> #[trigger] demo_names()[i] == "input"@) by {
        if demo_names()[i] == "input"@ {
            assert(demo_names()[7] == "input"@);
            lemma_demo_names_distinct(i, 7);
        }
    }
}

/// Whether two texts are equal.
pub fn same_text(a: &str, b: &str) -> (res: bool)
    ensures
        res == (a@ == b@),
{
    let n = a.unicode_len();
    if n != b.unicode_len() {
        return false;
    }
    let mut i: usize = 0;
    while i < n
        invariant
            n == a@.len(),
            n == b@.len(),
            i <= n,
            forall|j: int| 0 <= j < i ==> a@[j] == b@[j],
        decreases n - i,
    {
        if a.get_char(i) != b.get_char(i) {
            return false;
        }
        i = i + 1;
    }
    assert(a@ =~= b@);
    true
}

/// Position in the demo table of the demo selected when the page loads: the
/// first one named `DEFAULT_DEMO`, or the first demo when none is.
pub fn default_demo_index() -> (idx: usize)
    ensures
        idx < demo_names().len(),
        demo_names().contains(DEFAULT_DEMO@) ==> demo_names()[idx as int] == DEFAULT_DEMO@ && forall|
            j: int,
        |
            0 <= j < idx ==> demo_names()[j] != DEFAULT_DEMO@,
        !demo_names().contains(DEFAULT_DEMO@) ==> idx == 0,
        demo_names()[idx as int] == "hello"@,
{
    let table = demos();
    let mut i: usize = 0;
    while i < table.len()
        invariant
            table@.len() == demo_names().len(),
            forall|k: int| 0 <= k < table@.len() ==> is_demo(#[trigger] table@[k], k),
            i <= table@.len(),
            forall|j: int| 0 <= j < i ==> demo_names()[j] != DEFAULT_DEMO@,
        decreases table.len() - i,
    {
        if same_text(table[i].name, DEFAULT_DEMO) {
            assert(is_demo(table@[i as int], i as int));
            assert(demo_names().contains(DEFAULT_DEMO@));
            proof {
                reveal_strlit("hello");
            }
            return i;
        }
        assert(is_demo(table@[i as int], i as int));
        i = i + 1;
    }
    proof {
        reveal_strlit("hello");
        assert(demo_names()[5] == DEFAULT_DEMO@);
    }
    0
}

} // verus!
