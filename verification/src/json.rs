use vstd::prelude::*;
use vstd::string::{StrSliceExecFns, StringExecFns};
use crate::num::{dec_str, i32_to_string};
use crate::todo::{todos_view, Todo, TodoView};

verus! {

/// The character for one hexadecimal digit value, lower case.
pub open spec fn hex_digit(d: int) -> char {
    if d == 0 {
        '0'
    } else if d == 1 {
        '1'
    } else if d == 2 {
        '2'
    } else if d == 3 {
        '3'
    } else if d == 4 {
        '4'
    } else if d == 5 {
        '5'
    } else if d == 6 {
        '6'
    } else if d == 7 {
        '7'
    } else if d == 8 {
        '8'
    } else if d == 9 {
        '9'
    } else if d == 10 {
        'a'
    } else if d == 11 {
        'b'
    } else if d == 12 {
        'c'
    } else if d == 13 {
        'd'
    } else if d == 14 {
        'e'
    } else {
        'f'
    }
}

/// How one character appears inside a JSON string literal: quote and
/// backslash escaped, control characters as their short escapes or as
/// `\u00..`, and every other character as itself.
pub open spec fn esc_char(c: char) -> Seq<char> {
    let u = c as u32;
    if u == 34 {
        seq!['\\', '"']
    } else if u == 92 {
        seq!['\\', '\\']
    } else if u == 8 {
        seq!['\\', 'b']
    } else if u == 9 {
        seq!['\\', 't']
    } else if u == 10 {
        seq!['\\', 'n']
    } else if u == 12 {
        seq!['\\', 'f']
    } else if u == 13 {
        seq!['\\', 'r']
    } else if u < 32 {
        seq!['\\', 'u', '0', '0', hex_digit((u / 16) as int), hex_digit((u % 16) as int)]
    } else {
        seq![c]
    }
}

/// The body of a JSON string literal holding the given text.
pub open spec fn esc_string(s: Seq<char>) -> Seq<char>
    decreases s.len(),
{
    if s.len() == 0 {
        Seq::empty()
    } else {
        esc_string(s.drop_last()) + esc_char(s.last())
    }
}

/// A JSON string literal holding the given text.
pub open spec fn json_string(s: Seq<char>) -> Seq<char> {
    seq!['"'] + esc_string(s) + seq!['"']
}

/// The JSON object for one todo: its id and its content, in that order.
pub open spec fn json_todo(t: TodoView) -> Seq<char> {
    "{\"id\":"@ + dec_str(t.id) + ",\"content\":"@ + json_string(t.content) + "}"@
}

/// The comma-separated JSON objects for a sequence of todos.
pub open spec fn json_todo_items(ts: Seq<TodoView>) -> Seq<char>
    decreases ts.len(),
{
    if ts.len() == 0 {
        Seq::empty()
    } else if ts.len() == 1 {
        json_todo(ts[0])
    } else {
        json_todo_items(ts.drop_last()) + seq![','] + json_todo(ts.last())
    }
}

/// The JSON array for a sequence of todos, in order.
pub open spec fn json_todo_list(ts: Seq<TodoView>) -> Seq<char> {
    seq!['['] + json_todo_items(ts) + seq![']']
}

fn hex_to_char(d: u32) -> (c: char)
    requires
        d < 16,
    ensures
        c == hex_digit(d as int),
{
    if d == 0 {
        '0'
    } else if d == 1 {
        '1'
    } else if d == 2 {
        '2'
    } else if d == 3 {
        '3'
    } else if d == 4 {
        '4'
    } else if d == 5 {
        '5'
    } else if d == 6 {
        '6'
    } else if d == 7 {
        '7'
    } else if d == 8 {
        '8'
    } else if d == 9 {
        '9'
    } else if d == 10 {
        'a'
    } else if d == 11 {
        'b'
    } else if d == 12 {
        'c'
    } else if d == 13 {
        'd'
    } else if d == 14 {
        'e'
    } else {
        'f'
    }
}

fn escape_into(out: &mut String, s: &str)
    ensures
        final(out)@ == old(out)@ + esc_string(s@),
{
    let n = s.unicode_len();
    let mut i: usize = 0;
    while i < n
        invariant
            i <= n,
            n == s@.len(),
            out@ == old(out)@ + esc_string(s@.take(i as int)),
        decreases n - i,
    {
        let c = s.get_char(i);
        let u = c as u32;
        if u == 34 {
            out.append("\\\"");
            proof {
                reveal_strlit("\\\"");
            }
        } else if u == 92 {
            out.append("\\\\");
            proof {
                reveal_strlit("\\\\");
            }
        } else if u == 8 {
            out.append("\\b");
            proof {
                reveal_strlit("\\b");
            }
        } else if u == 9 {
            out.append("\\t");
            proof {
                reveal_strlit("\\t");
            }
        } else if u == 10 {
            out.append("\\n");
            proof {
                reveal_strlit("\\n");
            }
        } else if u == 12 {
            out.append("\\f");
            proof {
                reveal_strlit("\\f");
            }
        } else if u == 13 {
            out.append("\\r");
            proof {
                reveal_strlit("\\r");
            }
        } else if u < 32 {
            out.append("\\u00");
            out.push(hex_to_char(u / 16));
            out.push(hex_to_char(u % 16));
            proof {
                reveal_strlit("\\u00");
            }
        } else {
            out.push(c);
        }
        proof {
            assert(s@.take(i + 1).drop_last() =~= s@.take(i as int));
            assert(s@.take(i + 1).last() == s@[i as int]);
            assert(out@ =~= old(out)@ + esc_string(s@.take(i + 1)));
        }
        i += 1;
    }
    proof {
        assert(s@.take(n as int) =~= s@);
    }
}

/// The JSON rendering of one todo, `{"id":..,"content":".."}`.
pub fn todo_json(t: &Todo) -> (r: String)
    ensures
        r@ == json_todo(t@),
{
    let mut out = String::new();
    out.append("{\"id\":");
    let num = i32_to_string(t.id);
    out.append(num.as_str());
    out.append(",\"content\":");
    out.push('"');
    escape_into(&mut out, t.content.as_str());
    out.push('"');
    out.append("}");
    proof {
        assert(out@ =~= json_todo(t@));
    }
    out
}

/// The JSON rendering of a list of todos, `[{..},{..}]`, in order.
pub fn todo_list_json(ts: &Vec<Todo>) -> (r: String)
    ensures
        r@ == json_todo_list(todos_view(ts@)),
{
    let ghost m = todos_view(ts@);
    let mut out = String::new();
    out.push('[');
    let mut i: usize = 0;
    while i < ts.len()
        invariant
            i <= ts.len(),
            m == todos_view(ts@),
            out@ == seq!['['] + json_todo_items(m.take(i as int)),
        decreases ts.len() - i,
    {
        if i > 0 {
            out.push(',');
        }
        let piece = todo_json(&ts[i]);
        out.append(piece.as_str());
        proof {
            assert(m.take(i + 1).drop_last() =~= m.take(i as int));
            assert(m.take(i + 1).last() == m[i as int]);
            assert(out@ =~= seq!['['] + json_todo_items(m.take(i + 1)));
        }
        i += 1;
    }
    out.push(']');
    proof {
        assert(m.take(ts@.len() as int) =~= m);
        assert(out@ =~= json_todo_list(m));
    }
    out
}

} // verus!
