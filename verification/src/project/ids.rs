//! Identifiers and the files that are named after them.
use vstd::prelude::*;
use vstd::string::*;

use crate::project::claims;
use crate::project::TaskArtifact;
use crate::text;

verus! {

/// The unsigned 32-bit number that a text spells: decimal digits, with an
/// optional plus sign before them.
pub open spec fn spelled_u32(s: Seq<char>) -> Option<u32> {
    let digits = if s.len() > 0 && s[0] == '+' {
        s.skip(1)
    } else {
        s
    };
    if digits.len() > 0 && text::all_digits(digits) && text::digits_value(digits) <= u32::MAX {
        Some(text::digits_value(digits) as u32)
    } else {
        None
    }
}

/// The number of a task id.
pub open spec fn task_number(id: Seq<char>) -> Option<u32> {
    match text::after_prefix(id, "t-"@) {
        Some(rest) => spelled_u32(rest),
        None => None,
    }
}

/// The id of the task with a number.
pub open spec fn task_id(number: u32) -> Seq<char> {
    "t-"@ + text::pad_start(text::decimal(number as nat), 3, '0')
}

/// The task id that a file name stands for.
pub open spec fn file_task_id(name: Seq<char>) -> Seq<char> {
    match text::before_suffix(name, ".md"@) {
        Some(stem) => stem,
        None => name,
    }
}

/// The greatest task number among task ids; 0 where there is none.
pub open spec fn max_number(ids: Seq<Seq<char>>) -> u32
    decreases ids.len(),
{
    if ids.len() == 0 {
        0
    } else {
        let before = max_number(ids.drop_last());
        match task_number(ids.last()) {
            Some(n) => if n > before {
                n
            } else {
                before
            },
            None => before,
        }
    }
}

/// The task ids that file names stand for.
pub open spec fn file_ids(names: Seq<Seq<char>>) -> Seq<Seq<char>> {
    names.map_values(|n: Seq<char>| file_task_id(n))
}

/// The greatest task number in use.
pub open spec fn greatest_number(file_names: Seq<Seq<char>>, task_ids: Seq<Seq<char>>) -> u32 {
    let a = max_number(file_ids(file_names));
    let b = max_number(task_ids);
    if a > b {
        a
    } else {
        b
    }
}

fn parse_u32(s: &str) -> (out: Option<u32>)
    ensures
        out == spelled_u32(s@),
{
    let chars: Vec<char> = text::chars_of(s);
    let from: usize = if chars.len() > 0 && chars[0] == '+' {
        1
    } else {
        0
    };
    let ghost digits = if s@.len() > 0 && s@[0] == '+' {
        s@.skip(1)
    } else {
        s@
    };
    assert(digits =~= chars@.skip(from as int));
    if chars.len() == from {
        return None;
    }
    let mut value: u64 = 0;
    let mut over: bool = false;
    let mut i: usize = from;
    assert(digits.take(0) =~= Seq::<char>::empty());
    while i < chars.len()
        invariant
            chars@ == s@,
            spelled_u32(s@) == (if digits.len() > 0 && text::all_digits(digits)
                && text::digits_value(digits) <= u32::MAX {
                Some(text::digits_value(digits) as u32)
            } else {
                None
            }),
            from <= i <= chars@.len(),
            digits == chars@.skip(from as int),
            forall|k: int| 0 <= k < i - from ==> text::is_digit(#[trigger] digits[k]),
            over == (text::digits_value(digits.take(i - from)) > u32::MAX),
            !over ==> value == text::digits_value(digits.take(i - from)),
        decreases chars@.len() - i,
    {
        let c: char = chars[i];
        assert(digits[i - from] == c);
        if !('0' <= c && c <= '9') {
            return None;
        }
        let ghost more = digits.take(i - from + 1);
        assert(more.drop_last() =~= digits.take(i - from));
        assert(more.last() == c);
        if !over {
            value = value * 10 + (c as u32 - 48) as u64;
            if value > u32::MAX as u64 {
                over = true;
            }
        }
        i = i + 1;
    }
    assert(digits.take(i - from) =~= digits);
    if over {
        None
    } else {
        Some(value as u32)
    }
}

/// The number of a task id.
pub fn parse_task_number(id: &str) -> (out: Option<u32>)
    ensures
        out == task_number(id@),
{
    match text::strip_prefix(id, "t-") {
        Some(rest) => parse_u32(rest.as_str()),
        None => None,
    }
}

/// The greatest task number among task ids; 0 where there is none.
pub fn max_task_number(ids: &Vec<String>) -> (out: u32)
    ensures
        out == max_number(text::views(ids@)),
{
    let mut best: u32 = 0;
    let mut i: usize = 0;
    while i < ids.len()
        invariant
            i <= ids@.len(),
            best == max_number(text::views(ids@).take(i as int)),
        decreases ids@.len() - i,
    {
        let ghost more = text::views(ids@).take(i + 1);
        assert(more.drop_last() =~= text::views(ids@).take(i as int));
        assert(more.last() == ids@[i as int]@);
        if let Some(n) = parse_task_number(ids[i].as_str()) {
            if n > best {
                best = n;
            }
        }
        i = i + 1;
    }
    assert(text::views(ids@).take(i as int) =~= text::views(ids@));
    best
}

/// The greatest task number among the names of task files; 0 where there is
/// none.
pub fn max_task_number_from_files(names: &Vec<String>) -> (out: u32)
    ensures
        out == max_number(file_ids(text::views(names@))),
{
    let mut ids: Vec<String> = Vec::new();
    let mut i: usize = 0;
    while i < names.len()
        invariant
            i <= names@.len(),
            text::views(ids@) == file_ids(text::views(names@)).take(i as int),
        decreases names@.len() - i,
    {
        let stem: String = match text::strip_suffix(names[i].as_str(), ".md") {
            Some(stem) => stem,
            None => names[i].clone(),
        };
        let ghost before = text::views(ids@);
        ids.push(stem);
        assert(text::views(ids@) =~= before.push(stem@));
        i = i + 1;
        assert(file_ids(text::views(names@)).take(i as int) =~= before.push(stem@));
    }
    assert(text::views(ids@) =~= file_ids(text::views(names@)));
    max_task_number(&ids)
}

/// The files of the task with a number.
pub fn task_artifact(number: u32) -> (out: TaskArtifact)
    ensures
        out.id@ == task_id(number),
        out.path@ == ".ferrus/tasks/"@ + task_id(number) + ".md"@,
        out.run_dir@ == claims::run_dir(task_id(number)),
{
    let mut id: String = "t-".to_owned();
    let digits: String = text::decimal_string(number as u64);
    id.append(text::pad_start_string(digits.as_str(), 3, '0').as_str());
    let mut path: String = ".ferrus/tasks/".to_owned();
    path.append(id.as_str());
    path.append(".md");
    let run_dir: String = claims::run_dir_for_task(id.as_str());
    TaskArtifact { id, path, run_dir }
}

/// The files of a new task: the number after the greatest that is in use by a
/// task file or a task.
pub fn allocate_task_artifact(file_names: &Vec<String>, task_ids: &Vec<String>) -> (out:
    TaskArtifact)
    requires
        greatest_number(text::views(file_names@), text::views(task_ids@)) < u32::MAX,
    ensures
        ({
            let number = (greatest_number(text::views(file_names@), text::views(task_ids@))
                + 1) as u32;
            &&& out.id@ == task_id(number)
            &&& out.path@ == ".ferrus/tasks/"@ + task_id(number) + ".md"@
            &&& out.run_dir@ == claims::run_dir(task_id(number))
        }),
        !text::views(task_ids@).contains(out.id@),
        !text::views(file_names@).contains(out.id@ + ".md"@),
{
    let a: u32 = max_task_number_from_files(file_names);
    let b: u32 = max_task_number(task_ids);
    let greatest: u32 = if a > b {
        a
    } else {
        b
    };
    proof {
        law_new_task_is_fresh(text::views(file_names@), text::views(task_ids@));
    }
    task_artifact(greatest + 1)
}

proof fn lemma_digits_of_zeros(s: Seq<char>, zeros: int)
    requires
        zeros >= 0,
        text::all_digits(s),
    ensures
        text::all_digits(text::repeat('0', zeros) + s),
        text::digits_value(text::repeat('0', zeros) + s) == text::digits_value(s),
    decreases zeros + s.len(),
{
    let all = text::repeat('0', zeros) + s;
    assert forall|i: int| 0 <= i < all.len() implies text::is_digit(#[trigger] all[i]) by {
        if i >= zeros {
            assert(all[i] == s[i - zeros]);
        }
    }
    if s.len() > 0 {
        assert(all.drop_last() =~= text::repeat('0', zeros) + s.drop_last());
        assert(all.last() == s.last());
        assert forall|i: int| 0 <= i < s.drop_last().len() implies text::is_digit(
            #[trigger] s.drop_last()[i],
        ) by {
            assert(s.drop_last()[i] == s[i]);
        }
        lemma_digits_of_zeros(s.drop_last(), zeros);
    } else if zeros > 0 {
        assert(all.drop_last() =~= text::repeat('0', zeros - 1) + s);
        assert(all.last() == '0');
        lemma_digits_of_zeros(s, zeros - 1);
    } else {
        assert(all =~= s);
    }
}

/// A task id reads back as the number it was made from.
pub proof fn law_task_id_round_trip(number: u32)
    ensures
        task_number(task_id(number)) == Some(number),
{
    let digits = text::decimal(number as nat);
    text::lemma_decimal_round_trip(number as nat);
    let zeros = if digits.len() < 3 {
        3 - digits.len()
    } else {
        0
    };
    assert(text::pad_start(digits, 3, '0') =~= text::repeat('0', zeros) + digits);
    lemma_digits_of_zeros(digits, zeros);
    let padded = text::pad_start(digits, 3, '0');
    let id = task_id(number);
    assert(id.subrange(0, "t-"@.len() as int) =~= "t-"@);
    assert(id.skip("t-"@.len() as int) =~= padded);
    assert(text::is_digit(padded[0]));
    assert(padded[0] != '+');
}

proof fn lemma_max_number(ids: Seq<Seq<char>>, i: int)
    requires
        0 <= i < ids.len(),
    ensures
        task_number(ids[i]) is Some ==> task_number(ids[i])->0 <= max_number(ids),
    decreases ids.len(),
{
    if i < ids.len() - 1 {
        assert(ids.drop_last()[i] == ids[i]);
        lemma_max_number(ids.drop_last(), i);
    }
}

/// A new task takes no name that is in use, by a task or by a task file.
pub proof fn law_new_task_is_fresh(file_names: Seq<Seq<char>>, task_ids: Seq<Seq<char>>)
    requires
        greatest_number(file_names, task_ids) < u32::MAX,
    ensures
        ({
            let id = task_id((greatest_number(file_names, task_ids) + 1) as u32);
            !task_ids.contains(id) && !file_names.contains(id + ".md"@)
        }),
{
    let number = (greatest_number(file_names, task_ids) + 1) as u32;
    let id = task_id(number);
    law_task_id_round_trip(number);
    if task_ids.contains(id) {
        let i = choose|i: int| 0 <= i < task_ids.len() && task_ids[i] == id;
        lemma_max_number(task_ids, i);
    }
    let name = id + ".md"@;
    if file_names.contains(name) {
        let i = choose|i: int| 0 <= i < file_names.len() && file_names[i] == name;
        assert(name.subrange(id.len() as int, name.len() as int) =~= ".md"@);
        assert(name.take(id.len() as int) =~= id);
        assert(file_ids(file_names)[i] == id);
        lemma_max_number(file_ids(file_names), i);
    }
}

// ------------------------------------------------------------- random ids

/// The id of a project, from the time of its registration in milliseconds and a
/// hash of what it was registered from.
pub open spec fn project_id(millis: u64, hash: u64) -> Seq<char> {
    "P"@ + text::hex_fixed(millis as nat, 12, true) + text::hex_fixed(hash as nat, 16, true)
}

/// The id of a run, from the time of its start in milliseconds and a hash of
/// what was started.
pub open spec fn run_id(millis: u64, hash: u64) -> Seq<char> {
    "r-"@ + text::hex_fixed(millis as nat, 12, false) + "-"@ + text::hex_fixed(
        hash as nat,
        16,
        false,
    )
}

/// The id of a project.
pub fn generate_project_id(millis: u64, hash: u64) -> (out: String)
    ensures
        out@ == project_id(millis, hash),
{
    let mut out: String = "P".to_owned();
    out.append(text::hex_fixed_string(millis, 12, true).as_str());
    out.append(text::hex_fixed_string(hash, 16, true).as_str());
    out
}

/// The id of a run.
pub fn allocate_run_id(millis: u64, hash: u64) -> (out: String)
    ensures
        out@ == run_id(millis, hash),
{
    let mut out: String = "r-".to_owned();
    out.append(text::hex_fixed_string(millis, 12, false).as_str());
    out.append("-");
    out.append(text::hex_fixed_string(hash, 16, false).as_str());
    out
}

/// A character that a project id may hold.
pub open spec fn is_id_char(c: char) -> bool {
    ||| '0' <= c && c <= '9'
    ||| 'a' <= c && c <= 'z'
    ||| 'A' <= c && c <= 'Z'
    ||| c == '-'
    ||| c == '_'
}

/// A project id that can name a directory: ASCII letters, digits, `-` and `_`,
/// and not empty.
pub open spec fn valid_project_id(id: Seq<char>) -> bool {
    id.len() > 0 && forall|i: int| 0 <= i < id.len() ==> is_id_char(#[trigger] id[i])
}

/// A project id that cannot name a directory.
#[derive(Debug, Clone, PartialEq, Eq)]
pub struct InvalidProjectId {
    pub project_id: String,
}

/// Checks that a project id can name a directory.
pub fn validate_project_id(id: &str) -> (out: Result<(), InvalidProjectId>)
    ensures
        out is Ok <==> valid_project_id(id@),
        out is Err ==> out->Err_0.project_id@ == id@,
{
    let chars: Vec<char> = text::chars_of(id);
    let mut i: usize = 0;
    let mut valid: bool = chars.len() > 0;
    while i < chars.len()
        invariant
            i <= chars@.len(),
            chars@ == id@,
            valid == (id@.len() > 0 && forall|k: int| 0 <= k < i ==> is_id_char(#[trigger] id@[k])),
        decreases chars@.len() - i,
    {
        let c: char = chars[i];
        assert(c == id@[i as int]);
        let good: bool = ('0' <= c && c <= '9') || ('a' <= c && c <= 'z') || ('A' <= c && c <= 'Z')
            || c == '-' || c == '_';
        if !good {
            valid = false;
        }
        i = i + 1;
    }
    if valid {
        Ok(())
    } else {
        Err(InvalidProjectId { project_id: id.to_owned() })
    }
}

proof fn lemma_hex_chars(n: nat, width: nat, upper: bool)
    ensures
        text::hex_fixed(n, width, upper).len() == width,
        forall|i: int|
            0 <= i < width ==> is_id_char(#[trigger] text::hex_fixed(n, width, upper)[i]),
    decreases width,
{
    if width > 0 {
        lemma_hex_chars(n / 16, (width - 1) as nat, upper);
        let head = text::hex_fixed(n / 16, (width - 1) as nat, upper);
        let all = text::hex_fixed(n, width, upper);
        assert forall|i: int| 0 <= i < width implies is_id_char(#[trigger] all[i]) by {
            if i < width - 1 {
                assert(all[i] == head[i]);
            }
        }
    }
}

/// A generated project id is valid and has 29 characters.
pub proof fn law_generated_id_is_valid(millis: u64, hash: u64)
    ensures
        valid_project_id(project_id(millis, hash)),
        project_id(millis, hash).len() == 29,
{
    reveal_strlit("P");
    lemma_hex_chars(millis as nat, 12, true);
    lemma_hex_chars(hash as nat, 16, true);
    let id = project_id(millis, hash);
    let a = text::hex_fixed(millis as nat, 12, true);
    let b = text::hex_fixed(hash as nat, 16, true);
    assert forall|i: int| 0 <= i < id.len() implies is_id_char(#[trigger] id[i]) by {
        if i == 0 {
            assert(id[0] == 'P');
        } else if i < 13 {
            assert(id[i] == a[i - 1]);
        } else {
            assert(id[i] == b[i - 13]);
        }
    }
}

/// The greatest number in use is one that a task or a task file has, and none has a
/// greater one; where none has any it is zero. So new tasks count on by one.
pub proof fn law_numbers_count_on(file_names: Seq<Seq<char>>, task_ids: Seq<Seq<char>>, i: int)
    ensures
        ({
            let greatest = greatest_number(file_names, task_ids);
            &&& 0 <= i < task_ids.len() && task_number(task_ids[i]) is Some ==> task_number(
                task_ids[i],
            )->0 <= greatest
            &&& 0 <= i < file_names.len() && task_number(file_task_id(file_names[i])) is Some
                ==> task_number(file_task_id(file_names[i]))->0 <= greatest
            &&& greatest == 0 || (exists|j: int|
                0 <= j < task_ids.len() && task_number(#[trigger] task_ids[j]) == Some(greatest))
                || (exists|j: int|
                0 <= j < file_names.len() && task_number(file_task_id(#[trigger] file_names[j]))
                    == Some(greatest))
        }),
{
    let files = file_ids(file_names);
    if 0 <= i < task_ids.len() {
        lemma_max_number(task_ids, i);
    }
    if 0 <= i < file_names.len() {
        assert(files[i] == file_task_id(file_names[i]));
        lemma_max_number(files, i);
    }
    lemma_max_is_reached(task_ids);
    lemma_max_is_reached(files);
    let greatest = greatest_number(file_names, task_ids);
    if max_number(files) > max_number(task_ids) {
        let j = choose|j: int|
            0 <= j < files.len() && task_number(#[trigger] files[j]) == Some(max_number(files));
        assert(files[j] == file_task_id(file_names[j]));
        assert(task_number(file_task_id(file_names[j])) == Some(greatest));
    }
}

proof fn lemma_max_is_reached(ids: Seq<Seq<char>>)
    ensures
        max_number(ids) == 0 || exists|j: int|
            0 <= j < ids.len() && task_number(#[trigger] ids[j]) == Some(max_number(ids)),
    decreases ids.len(),
{
    if ids.len() > 0 {
        let front = ids.drop_last();
        lemma_max_is_reached(front);
        if max_number(ids) != 0 {
            if max_number(ids) == max_number(front) {
                let j = choose|j: int|
                    0 <= j < front.len() && task_number(#[trigger] front[j]) == Some(
                        max_number(front),
                    );
                assert(ids[j] == front[j]);
            } else {
                assert(ids[ids.len() - 1] == ids.last());
            }
        }
    }
}

/// A task id is `t-` and the number in decimal, with zeros before it up to three digits;
/// the file of a task is its id with `.md` behind it.
pub proof fn law_task_ids_are_spelled(number: u32)
    ensures
        ({
            let digits = text::decimal(number as nat);
            let zeros = task_id(number).len() - 2 - digits.len();
            &&& task_id(number).take(2) == seq!['t', '-']
            &&& task_id(number).skip(2 + zeros) == digits
            &&& forall|k: int| 2 <= k < 2 + zeros ==> #[trigger] task_id(number)[k] == '0'
            &&& digits.len() < 3 ==> task_id(number).len() == 5
            &&& digits.len() >= 3 ==> zeros == 0
            &&& file_task_id(task_id(number) + ".md"@) == task_id(number)
        }),
{
    reveal_strlit("t-");
    reveal_strlit(".md");
    let digits = text::decimal(number as nat);
    let id = task_id(number);
    text::lemma_decimal_round_trip(number as nat);
    assert(id.take(2) =~= seq!['t', '-']);
    let zeros = id.len() - 2 - digits.len();
    assert(id.skip(2 + zeros) =~= digits);
    let name = id + ".md"@;
    assert(name.subrange(id.len() as int, name.len() as int) =~= ".md"@);
    assert(name.take(id.len() as int) =~= id);
}

/// Sixteen to the power of a width.
pub open spec fn hex_range(width: nat) -> nat
    decreases width,
{
    if width == 0 {
        1
    } else {
        16 * hex_range((width - 1) as nat)
    }
}

proof fn lemma_hex_differs(a: nat, b: nat, width: nat, upper: bool)
    requires
        a < hex_range(width),
        b < hex_range(width),
        text::hex_fixed(a, width, upper) == text::hex_fixed(b, width, upper),
    ensures
        a == b,
    decreases width,
{
    if width > 0 {
        let w = (width - 1) as nat;
        let x = text::hex_fixed(a, width, upper);
        let y = text::hex_fixed(b, width, upper);
        assert(x.drop_last() =~= text::hex_fixed(a / 16, w, upper));
        assert(y.drop_last() =~= text::hex_fixed(b / 16, w, upper));
        assert(x.last() == y.last());
        assert(a % 16 == b % 16);
        lemma_hex_differs(a / 16, b / 16, w, upper);
    }
}

/// Ids differ: two projects or two runs have the same id only where the times, up to the
/// 48 bits that are kept of them, and the hashes are the same.
pub proof fn law_generated_ids_differ(millis: u64, hash: u64, other_millis: u64, other_hash: u64)
    requires
        millis < 0x1_0000_0000_0000,
        other_millis < 0x1_0000_0000_0000,
    ensures
        run_id(millis, hash) == run_id(other_millis, other_hash) ==> millis == other_millis && hash
            == other_hash,
        project_id(millis, hash) == project_id(other_millis, other_hash) ==> millis == other_millis
            && hash == other_hash,
{
    reveal_with_fuel(hex_range, 17);
    assert(hex_range(12) == 0x1_0000_0000_0000);
    assert(hex_range(16) == 0x1_0000_0000_0000_0000);
    reveal_strlit("r-");
    reveal_strlit("-");
    reveal_strlit("P");
    lemma_hex_chars(millis as nat, 12, false);
    lemma_hex_chars(other_millis as nat, 12, false);
    lemma_hex_chars(hash as nat, 16, false);
    lemma_hex_chars(other_hash as nat, 16, false);
    lemma_hex_chars(millis as nat, 12, true);
    lemma_hex_chars(other_millis as nat, 12, true);
    lemma_hex_chars(hash as nat, 16, true);
    lemma_hex_chars(other_hash as nat, 16, true);
    let a = run_id(millis, hash);
    let b = run_id(other_millis, other_hash);
    if a == b {
        assert(a.subrange(2, 14) =~= text::hex_fixed(millis as nat, 12, false));
        assert(b.subrange(2, 14) =~= text::hex_fixed(other_millis as nat, 12, false));
        assert(a.skip(15) =~= text::hex_fixed(hash as nat, 16, false));
        assert(b.skip(15) =~= text::hex_fixed(other_hash as nat, 16, false));
        lemma_hex_differs(millis as nat, other_millis as nat, 12, false);
        lemma_hex_differs(hash as nat, other_hash as nat, 16, false);
    }
    let c = project_id(millis, hash);
    let d = project_id(other_millis, other_hash);
    if c == d {
        assert(c.subrange(1, 13) =~= text::hex_fixed(millis as nat, 12, true));
        assert(d.subrange(1, 13) =~= text::hex_fixed(other_millis as nat, 12, true));
        assert(c.skip(13) =~= text::hex_fixed(hash as nat, 16, true));
        assert(d.skip(13) =~= text::hex_fixed(other_hash as nat, 16, true));
        lemma_hex_differs(millis as nat, other_millis as nat, 12, true);
        lemma_hex_differs(hash as nat, other_hash as nat, 16, true);
    }
}

/// A project id that is valid names a directory of its own: it is not empty and has no
/// separator, no dot and no white space.
pub proof fn law_valid_id_names_a_directory(id: Seq<char>, i: int)
    requires
        valid_project_id(id),
        0 <= i < id.len(),
    ensures
        id[i] != '/' && id[i] != '\\' && id[i] != '.' && id[i] != ' ' && id[i] != ':',
        id.len() > 0,
        id[i] == '-' || id[i] == '_' || ('0' <= id[i] && id[i] <= '9') || ('a' <= id[i] && id[i]
            <= 'z') || ('A' <= id[i] && id[i] <= 'Z'),
{
    assert(is_id_char(id[i]));
}

/// Letters, digits, hyphens and underscores make a valid id, whatever their order.
pub proof fn law_plain_id_is_valid(id: Seq<char>)
    requires
        id.len() > 0,
        forall|i: int|
            0 <= i < id.len() ==> (#[trigger] id[i]) == '-' || id[i] == '_' || ('0' <= id[i]
                && id[i] <= '9') || ('a' <= id[i] && id[i] <= 'z') || ('A' <= id[i] && id[i]
                <= 'Z'),
    ensures
        valid_project_id(id),
{
}

} // verus!
