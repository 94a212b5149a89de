//! Strings as sequences of characters.
use vstd::prelude::*;

verus! {

/// Specifies `String::push`: it appends the given character to the end of the string.
pub assume_specification[ String::push ](text: &mut String, c: char)
    ensures
        final(text)@ == old(text)@.push(c),
;

/// Specifies `String::pop`: it removes the last character and returns it, or returns `None` and
/// changes nothing where the string is empty.
pub assume_specification[ String::pop ](text: &mut String) -> (last: Option<char>)
    ensures
        old(text)@.len() > 0 ==> last == Some(old(text)@.last()) && final(text)@
            == old(text)@.drop_last(),
        old(text)@.len() == 0 ==> last == None::<char> && final(text)@ == old(text)@,
;

/// What an optional string holds.
pub open spec fn option_view(text: Option<String>) -> Option<Seq<char>> {
    match text {
        Some(text) => Some(text@),
        None => None,
    }
}

/// What a list of strings holds.
pub open spec fn list_view(texts: Seq<String>) -> Seq<Seq<char>> {
    texts.map_values(|text: String| text@)
}

/// Whether a list of places ascends.
pub open spec fn ascends(places: Seq<int>) -> bool {
    forall|i: int, j: int|
        0 <= i < j < places.len() ==> #[trigger] places[i] < #[trigger] places[j]
}

/// The characters with Unicode's White_Space property.
pub open spec fn is_white_space(c: char) -> bool {
    ||| 0x9 <= c as u32 <= 0xd
    ||| c == ' '
    ||| c as u32 == 0x85
    ||| c as u32 == 0xa0
    ||| c as u32 == 0x1680
    ||| 0x2000 <= c as u32 <= 0x200a
    ||| c as u32 == 0x2028
    ||| c as u32 == 0x2029
    ||| c as u32 == 0x202f
    ||| c as u32 == 0x205f
    ||| c as u32 == 0x3000
}

/// Whether `c` is white space.
pub fn white_space(c: char) -> (yes: bool)
    ensures
        yes == is_white_space(c),
{
    let code: u32 = c as u32;
    (0x9 <= code && code <= 0xd) || c == ' ' || code == 0x85 || code == 0xa0 || code == 0x1680 || (
    0x2000 <= code && code <= 0x200a) || code == 0x2028 || code == 0x2029 || code == 0x202f || code
        == 0x205f || code == 0x3000
}

/// The control codes, Unicode's general category Cc.
pub open spec fn is_control(c: char) -> bool {
    (c as u32) < 0x20 || 0x7f <= c as u32 <= 0x9f
}

/// Whether `text` holds a control code.
pub open spec fn has_control(text: Seq<char>) -> bool {
    exists|i: int| 0 <= i < text.len() && is_control(#[trigger] text[i])
}

/// Whether `text` holds a control code.
pub fn contains_control(text: &str) -> (found: bool)
    ensures
        found == has_control(text@),
{
    let chars: Vec<char> = chars_of(text);
    let mut i: usize = 0;
    while i < chars.len()
        invariant
            chars@ == text@,
            i <= chars.len(),
            forall|k: int| 0 <= k < i ==> !is_control(#[trigger] text@[k]),
        decreases chars.len() - i,
    {
        let code: u32 = chars[i] as u32;
        if code < 0x20 || (0x7f <= code && code <= 0x9f) {
            assert(is_control(text@[i as int]));
            return true;
        }
        i = i + 1;
    }
    false
}

/// `c` with an ASCII capital turned into its small letter.
pub open spec fn lower_ascii(c: char) -> char {
    if 'A' as u32 <= c as u32 <= 'Z' as u32 {
        (c as u32 + 32) as char
    } else {
        c
    }
}

/// `text` with every ASCII capital turned into its small letter.
pub open spec fn lowered(text: Seq<char>) -> Seq<char> {
    text.map_values(|c: char| lower_ascii(c))
}

/// A copy of `text` in ASCII small letters.
pub fn to_lower_ascii(text: &str) -> (lower: String)
    ensures
        lower@ == lowered(text@),
{
    let chars: Vec<char> = chars_of(text);
    let mut lower = String::new();
    let mut i: usize = 0;
    while i < chars.len()
        invariant
            chars@ == text@,
            i <= chars.len(),
            lower@ == lowered(text@.take(i as int)),
        decreases chars.len() - i,
    {
        let c: char = chars[i];
        let code: u32 = c as u32;
        let small: char = if 'A' as u32 <= code && code <= 'Z' as u32 {
            ((code + 32) as u8) as char
        } else {
            c
        };
        assert(small == lower_ascii(c));
        lower.push(small);
        proof {
            assert(text@.take(i + 1) =~= text@.take(i as int).push(c));
            assert(lowered(text@.take(i + 1)) =~= lowered(text@.take(i as int)).push(
                lower_ascii(c),
            ));
        }
        i = i + 1;
    }
    assert(text@.take(chars.len() as int) =~= text@);
    lower
}

/// The characters of `text`, for access by index.
pub fn chars_of(text: &str) -> (chars: Vec<char>)
    ensures
        chars@ == text@,
{
    let mut chars: Vec<char> = Vec::new();
    for c in it: text.chars()
        invariant
            it.seq() == text@,
            chars@ == text@.take(it.index()),
    {
        chars.push(c);
        assert(text@.take(it.index() + 1) =~= text@.take(it.index()).push(c));
    }
    assert(text@.take(text@.len() as int) =~= text@);
    chars
}

/// The place of the last `c` among the first `end` characters.
pub fn last_place(chars: &Vec<char>, end: usize, c: char) -> (place: Option<usize>)
    requires
        end <= chars@.len(),
    ensures
        match place {
            Some(i) => i < end && chars@.take(end as int).index_of_last(c) == Some(i as int),
            None => chars@.take(end as int).index_of_last(c) is None,
        },
{
    let ghost part = chars@.take(end as int);
    proof {
        part.index_of_last_ensures(c);
    }
    let mut i: usize = end;
    while i > 0
        invariant
            i <= end <= chars@.len(),
            part == chars@.take(end as int),
            forall|k: int| i <= k < end ==> part[k] != c,
        decreases i,
    {
        i = i - 1;
        if chars[i] == c {
            proof {
                part.index_of_last_ensures(c);
                assert(part[i as int] == c);
                assert(part.contains(c));
                let last = part.index_of_last(c)->0;
                if last < i {
                    assert(part[i as int] != c);
                }
            }
            return Some(i);
        }
    }
    None
}

/// The string that the characters from `start` up to `end` make.
pub fn text_between(chars: &Vec<char>, start: usize, end: usize) -> (text: String)
    requires
        start <= end <= chars@.len(),
    ensures
        text@ == chars@.subrange(start as int, end as int),
{
    let mut text = String::new();
    let mut i: usize = start;
    while i < end
        invariant
            start <= i <= end <= chars@.len(),
            text@ == chars@.subrange(start as int, i as int),
        decreases end - i,
    {
        text.push(chars[i]);
        i = i + 1;
        assert(text@ =~= chars@.subrange(start as int, i as int));
    }
    text
}

/// Whether two strings hold the same characters.
pub fn same_text(a: &str, b: &str) -> (same: bool)
    ensures
        same == (a@ == b@),
{
    a.to_owned() == b.to_owned()
}

/// The words of `text`: its longest runs of characters that are not white space, in order.
pub open spec fn words(text: Seq<char>) -> Seq<Seq<char>>
    decreases text.len(),
{
    if text.len() == 0 {
        Seq::empty()
    } else {
        let before = words(text.drop_last());
        let c = text.last();
        if is_white_space(c) {
            before
        } else if text.len() == 1 || is_white_space(text[text.len() - 2]) {
            before.push(seq![c])
        } else {
            before.drop_last().push(before.last().push(c))
        }
    }
}

/// A word is under way at the end of `text`.
proof fn lemma_open_word(text: Seq<char>)
    requires
        text.len() > 0,
        !is_white_space(text.last()),
    ensures
        words(text).len() > 0,
{
}

/// Splits `text` at white space.
pub fn split_words(text: &str) -> (list: Vec<String>)
    ensures
        list_view(list@) == words(text@),
{
    let chars: Vec<char> = chars_of(text);
    let mut list: Vec<String> = Vec::new();
    let mut i: usize = 0;
    while i < chars.len()
        invariant
            chars@ == text@,
            i <= chars.len(),
            list_view(list@) == words(text@.take(i as int)),
        decreases chars.len() - i,
    {
        let c: char = chars[i];
        let ghost before = text@.take(i as int);
        let ghost after = text@.take(i + 1);
        proof {
            assert(after.drop_last() =~= before);
            assert(after.last() == c);
        }
        if !white_space(c) {
            if i == 0 || white_space(chars[i - 1]) {
                let mut word = String::new();
                word.push(c);
                assert(word@ =~= seq![c]);
                let ghost old_list = list@;
                list.push(word);
                assert(list_view(list@) =~= list_view(old_list).push(seq![c]));
            } else {
                proof {
                    assert(before.last() == chars@[i - 1]);
                    lemma_open_word(before);
                }
                let ghost old_list = list@;
                let word: Option<String> = list.pop();
                match word {
                    Some(word) => {
                        let mut word = word;
                        assert(word@ == list_view(old_list).last());
                        word.push(c);
                        list.push(word);
                        assert(list_view(list@) =~= list_view(old_list).drop_last().push(
                            list_view(old_list).last().push(c),
                        ));
                    },
                    None => {},
                }
            }
        }
        i = i + 1;
    }
    assert(text@.take(chars.len() as int) =~= text@);
    list
}

/// A word is never empty and holds no white space.
pub proof fn law_words_are_solid(text: Seq<char>, word: int)
    requires
        0 <= word < words(text).len(),
    ensures
        words(text)[word].len() > 0,
        forall|i: int|
            0 <= i < words(text)[word].len() ==> !is_white_space(#[trigger] words(text)[word][i]),
    decreases text.len(),
{
    if text.len() > 0 {
        let before = words(text.drop_last());
        if word < before.len() {
            law_words_are_solid(text.drop_last(), word);
        }
        if word == before.len() - 1 {
            law_words_are_solid(text.drop_last(), word);
        }
    }
}

/// Splitting into words loses nothing but white space: the words put together are the text
/// without it.
pub proof fn law_words_keep_the_text(text: Seq<char>)
    ensures
        words(text).flatten() == text.filter(|c: char| !is_white_space(c)),
    decreases text.len(),
{
    let solid = |c: char| !is_white_space(c);
    reveal(Seq::filter);
    if text.len() > 0 {
        let c = text.last();
        let before = words(text.drop_last());
        law_words_keep_the_text(text.drop_last());
        if is_white_space(c) {
        } else if text.len() == 1 || is_white_space(text[text.len() - 2]) {
            lemma_flatten_push(before, seq![c]);
            assert(words(text).flatten() =~= before.flatten().push(c));
        } else {
            lemma_open_word(text.drop_last());
            let whole = before.last();
            lemma_flatten_push(before.drop_last(), whole);
            lemma_flatten_push(before.drop_last(), whole.push(c));
            assert(before.drop_last().push(whole) =~= before);
            assert(words(text).flatten() =~= before.flatten().push(c));
        }
    }
}

/// Flattening a list with one more member appends that member.
pub proof fn lemma_flatten_push<A>(list: Seq<Seq<A>>, last: Seq<A>)
    ensures
        list.push(last).flatten() == list.flatten() + last,
    decreases list.len(),
{
    let all = list.push(last);
    if list.len() == 0 {
        assert(all.drop_first() =~= Seq::empty());
        assert(all.drop_first().flatten() =~= Seq::empty());
        assert(all.flatten() =~= last);
        assert(list.flatten() =~= Seq::empty());
    } else {
        assert(all.drop_first() =~= list.drop_first().push(last));
        lemma_flatten_push(list.drop_first(), last);
        assert(all.flatten() =~= list.flatten() + last);
    }
}

/// What a filter keeps passes it and is a member of the list.
pub proof fn lemma_filter_member<A>(list: Seq<A>, keep: spec_fn(A) -> bool, i: int)
    requires
        0 <= i < list.filter(keep).len(),
    ensures
        keep(list.filter(keep)[i]),
        exists|k: int| 0 <= k < list.len() && list[k] == list.filter(keep)[i],
    decreases list.len(),
{
    reveal(Seq::filter);
    if list.len() > 0 {
        let before = list.drop_last().filter(keep);
        if i < before.len() {
            lemma_filter_member(list.drop_last(), keep, i);
            let k = choose|k: int|
                0 <= k < list.drop_last().len() && list.drop_last()[k] == before[i];
            assert(list[k] == list.filter(keep)[i]);
        } else {
            assert(list[list.len() - 1] == list.filter(keep)[i]);
        }
    }
}

/// The members of `list` one after the other, each but the last followed by a line feed.
pub open spec fn lines(list: Seq<Seq<char>>) -> Seq<char>
    decreases list.len(),
{
    if list.len() == 0 {
        Seq::empty()
    } else if list.len() == 1 {
        list[0]
    } else {
        lines(list.drop_last()).push('\n') + list.last()
    }
}

/// Joins `list` with line feeds.
pub fn join_lines(list: &[String]) -> (text: String)
    ensures
        text@ == lines(list_view(list@)),
{
    let mut text = String::new();
    let mut i: usize = 0;
    while i < list.len()
        invariant
            i <= list.len(),
            text@ == lines(list_view(list@.take(i as int))),
        decreases list.len() - i,
    {
        let ghost before = list_view(list@.take(i as int));
        let ghost after = list_view(list@.take(i + 1));
        proof {
            assert(list@.take(i + 1).drop_last() =~= list@.take(i as int));
            assert(after.drop_last() =~= before);
            assert(after.last() == list@[i as int]@);
        }
        if i > 0 {
            text.push('\n');
        }
        text.append(list[i].as_str());
        assert(text@ =~= lines(after));
        i = i + 1;
    }
    assert(list@.take(list.len() as int) =~= list@);
    text
}

/// A copy of a list of strings.
pub fn copy_list(list: &Vec<String>) -> (copy: Vec<String>)
    ensures
        list_view(copy@) == list_view(list@),
{
    let mut copy: Vec<String> = Vec::new();
    let mut i: usize = 0;
    while i < list.len()
        invariant
            i <= list.len(),
            list_view(copy@) == list_view(list@.take(i as int)),
        decreases list.len() - i,
    {
        let ghost old_copy = copy@;
        copy.push(list[i].clone());
        proof {
            assert(list@.take(i + 1) =~= list@.take(i as int).push(list@[i as int]));
            assert(list_view(copy@) =~= list_view(old_copy).push(list@[i as int]@));
            assert(list_view(list@.take(i + 1)) =~= list_view(list@.take(i as int)).push(
                list@[i as int]@,
            ));
        }
        i = i + 1;
    }
    assert(list@.take(list.len() as int) =~= list@);
    copy
}

/// A copy of an optional string.
pub fn copy_option(text: &Option<String>) -> (copy: Option<String>)
    ensures
        option_view(copy) == option_view(*text),
{
    match text {
        Some(text) => Some(text.clone()),
        None => None,
    }
}

/// The white space that separates words is what Unicode lists as such: 25 characters.
pub proof fn law_white_space(c: char)
    ensures
        is_white_space(c) <==> [
            0x9u32,
            0xa,
            0xb,
            0xc,
            0xd,
            0x20,
            0x85,
            0xa0,
            0x1680,
            0x2000,
            0x2001,
            0x2002,
            0x2003,
            0x2004,
            0x2005,
            0x2006,
            0x2007,
            0x2008,
            0x2009,
            0x200a,
            0x2028,
            0x2029,
            0x202f,
            0x205f,
            0x3000,
        ]@.contains(c as u32),
{
    let listed = [
        0x9u32,
        0xa,
        0xb,
        0xc,
        0xd,
        0x20,
        0x85,
        0xa0,
        0x1680,
        0x2000,
        0x2001,
        0x2002,
        0x2003,
        0x2004,
        0x2005,
        0x2006,
        0x2007,
        0x2008,
        0x2009,
        0x200a,
        0x2028,
        0x2029,
        0x202f,
        0x205f,
        0x3000,
    ]@;
    let code = c as u32;
    assert(code == 0x20 <==> c == ' ');
    if is_white_space(c) {
        let at = if code <= 0xd {
            code - 0x9
        } else if code == 0x20 {
            5
        } else if code == 0x85 {
            6
        } else if code == 0xa0 {
            7
        } else if code == 0x1680 {
            8
        } else if code <= 0x200a {
            9 + (code - 0x2000)
        } else if code == 0x2028 {
            20
        } else if code == 0x2029 {
            21
        } else if code == 0x202f {
            22
        } else if code == 0x205f {
            23
        } else {
            24int
        };
        assert(listed[at] == code);
    }
}

/// A text holds a control code where one of its characters lies below the space, or from DEL up to
/// the last of the second control block; any other text is free of them.
pub proof fn law_control_codes(text: Seq<char>)
    ensures
        (forall|i: int|
            0 <= i < text.len() ==> 0x20 <= (#[trigger] text[i]) as u32 <= 0x7e || 0xa0
                <= text[i] as u32) ==> !has_control(text),
        forall|i: int|
            0 <= i < text.len() && ((#[trigger] text[i]) as u32 <= 0x1f || 0x7f <= text[i] as u32
                <= 0x9f) ==> has_control(text),
{
    if has_control(text) {
        let i = choose|i: int| 0 <= i < text.len() && is_control(#[trigger] text[i]);
        assert(text[i] as u32 <= 0x1f || 0x7f <= text[i] as u32 <= 0x9f);
    }
    assert forall|i: int|
        0 <= i < text.len() && ((#[trigger] text[i]) as u32 <= 0x1f || 0x7f <= text[i] as u32
            <= 0x9f) implies has_control(text) by {
        assert(is_control(text[i]));
    }
}

/// Lowering turns the 26 ASCII capitals into the letters 32 places on, and nothing else.
pub proof fn law_lowering(text: Seq<char>, i: int)
    requires
        0 <= i < text.len(),
    ensures
        lowered(text).len() == text.len(),
        65 <= text[i] as u32 <= 90 ==> lowered(text)[i] as u32 == text[i] as u32 + 32,
        (text[i] as u32) < 65 || 90 < text[i] as u32 ==> lowered(text)[i] == text[i],
{
}

/// A text without white space is one word.
pub proof fn law_solid_text_is_one_word(text: Seq<char>)
    requires
        text.len() > 0,
        forall|i: int| 0 <= i < text.len() ==> !is_white_space(#[trigger] text[i]),
    ensures
        words(text) == seq![text],
    decreases text.len(),
{
    assert(!is_white_space(text[text.len() - 1]));
    if text.len() > 1 {
        assert(!is_white_space(text[text.len() - 2]));
        law_solid_text_is_one_word(text.drop_last());
        assert(text.drop_last().push(text.last()) =~= text);
    } else {
        assert(words(text.drop_last()) =~= Seq::empty());
        assert(seq![text.last()] =~= text);
    }
    assert(words(text) =~= seq![text]);
}

/// White space separates words, and does nothing else: the words of two texts with white space
/// between them are those of the first and then those of the second.
pub proof fn law_white_space_separates_words(first: Seq<char>, space: char, second: Seq<char>)
    requires
        is_white_space(space),
    ensures
        words(first.push(space) + second) == words(first) + words(second),
        words(Seq::<char>::empty()) == Seq::<Seq<char>>::empty(),
    decreases second.len(),
{
    let whole = first.push(space) + second;
    if second.len() == 0 {
        assert(whole =~= first.push(space));
        assert(whole.drop_last() =~= first);
        assert(words(whole) =~= words(first) + words(second));
    } else {
        law_white_space_separates_words(first, space, second.drop_last());
        assert(whole.drop_last() =~= first.push(space) + second.drop_last());
        assert(whole.last() == second.last());
        if !is_white_space(second.last()) {
            if second.len() == 1 {
                assert(whole[whole.len() - 2] == space);
            } else {
                assert(whole[whole.len() - 2] == second[second.len() - 2]);
                if !is_white_space(second[second.len() - 2]) {
                    lemma_open_word(second.drop_last());
                }
            }
        }
        assert(words(whole) =~= words(first) + words(second));
    }
}

/// Lines are the members of a list with one line feed between each two.
pub proof fn law_lines(list: Seq<Seq<char>>, last: Seq<char>)
    ensures
        lines(Seq::<Seq<char>>::empty()) == Seq::<char>::empty(),
        lines(seq![last]) == last,
        list.len() > 0 ==> lines(list.push(last)) == lines(list) + seq!['\n'] + last,
{
    assert(list.push(last).drop_last() =~= list);
    if list.len() > 0 {
        assert(lines(list.push(last)) =~= lines(list) + seq!['\n'] + last);
    }
}

/// The views of texts hold just what the texts hold.
pub proof fn law_text_views(text: Option<String>, list: Seq<String>, i: int)
    ensures
        text is Some <==> option_view(text) is Some,
        text is Some ==> option_view(text)->0 == (text->0)@,
        list_view(list).len() == list.len(),
        0 <= i < list.len() ==> list_view(list)[i] == list[i]@,
{
}

} // verus!
