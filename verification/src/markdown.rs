//! Finding the YAML blocks of a CABIDL markdown document.
use crate::text::{
    chars_of, join_lines, join_with_newline, lines, lines_from, next_newline, split_lines,
    starts_with, starts_with_str, string_of, trim, trim_chars,
};
use vstd::prelude::*;

verus! {

/// Where the scan of the lines stands.
pub struct FenceScan {
    /// The blocks found so far: text and 1-based line of the opening fence.
    pub blocks: Seq<(Seq<char>, usize)>,
    pub in_yaml: bool,
    pub in_other_fence: bool,
    /// The lines of the YAML block being read.
    pub yaml_lines: Seq<Seq<char>>,
    pub yaml_start: usize,
}

pub open spec fn fence_start() -> FenceScan {
    FenceScan {
        blocks: Seq::empty(),
        in_yaml: false,
        in_other_fence: false,
        yaml_lines: Seq::empty(),
        yaml_start: 0,
    }
}

/// One line, numbered `num`: a fence that starts with ```` ```yaml ```` opens
/// a YAML block, any other ```` ``` ```` line opens or closes a fence, and the
/// lines inside a YAML block are its text. Fences are recognised on the
/// trimmed line; the block keeps the lines as they are.
pub open spec fn fence_step(st: FenceScan, line: Seq<char>, num: usize) -> FenceScan {
    let t = trim(line);
    if st.in_yaml {
        if starts_with(t, "```"@) {
            FenceScan {
                blocks: st.blocks.push((join_lines(st.yaml_lines), st.yaml_start)),
                in_yaml: false,
                yaml_lines: Seq::empty(),
                ..st
            }
        } else {
            FenceScan { yaml_lines: st.yaml_lines.push(line), ..st }
        }
    } else if st.in_other_fence {
        if starts_with(t, "```"@) {
            FenceScan { in_other_fence: false, ..st }
        } else {
            st
        }
    } else if starts_with(t, "```yaml"@) {
        FenceScan { in_yaml: true, yaml_start: num, ..st }
    } else if starts_with(t, "```"@) {
        FenceScan { in_other_fence: true, ..st }
    } else {
        st
    }
}

/// The scan after the first `n` lines.
pub open spec fn fence_scan(ls: Seq<Seq<char>>, n: int) -> FenceScan
    decreases n,
{
    if n <= 0 || n > ls.len() {
        fence_start()
    } else {
        fence_step(fence_scan(ls, n - 1), ls[n - 1], n as usize)
    }
}

/// The YAML blocks of a markdown text, each with the 1-based line of its
/// opening fence. A block still open at the end of the text is dropped.
pub open spec fn yaml_blocks(content: Seq<char>) -> Seq<(Seq<char>, usize)> {
    let ls = lines(content);
    fence_scan(ls, ls.len() as int).blocks
}

pub open spec fn block_views(bs: Seq<(String, usize)>) -> Seq<(Seq<char>, usize)> {
    bs.map_values(|b: (String, usize)| (b.0@, b.1))
}

pub open spec fn string_views(v: Seq<String>) -> Seq<Seq<char>> {
    v.map_values(|s: String| s@)
}

proof fn lemma_lines_from_len(s: Seq<char>, i: int)
    requires
        0 <= i <= s.len(),
    ensures
        lines_from(s, i).len() <= s.len() - i,
    decreases s.len() - i,
{
    if i < s.len() {
        lemma_next_newline(s, i);
        let j = next_newline(s, i);
        if j < s.len() {
            lemma_lines_from_len(s, j + 1);
        }
    }
}

proof fn lemma_next_newline(s: Seq<char>, i: int)
    requires
        0 <= i <= s.len(),
    ensures
        i <= next_newline(s, i) <= s.len(),
    decreases s.len() - i,
{
    if i < s.len() && s[i] != '\n' {
        lemma_next_newline(s, i + 1);
    }
}

/// The number of lines is at most the number of characters.
pub proof fn lemma_lines_len(s: Seq<char>)
    ensures
        lines(s).len() <= s.len(),
{
    lemma_lines_from_len(s, 0);
}

/// Extracts the YAML code blocks of markdown content, each with the
/// 1-based line number of its opening fence.
pub fn extract_yaml_blocks(content: &str) -> (r: Vec<(String, usize)>)
    ensures
        block_views(r@) == yaml_blocks(content@),
{
    let cv = chars_of(content);
    let ls = split_lines(cv.as_slice());
    let ghost lsv = lines(content@);
    proof {
        lemma_lines_len(content@);
    }
    let mut blocks: Vec<(String, usize)> = Vec::new();
    let mut in_yaml = false;
    let mut in_other_fence = false;
    let mut yaml_lines: Vec<String> = Vec::new();
    let mut yaml_start: usize = 0;
    let mut i: usize = 0;
    while i < ls.len()
        invariant
            i <= ls@.len(),
            lsv == lines(content@),
            ls@.len() == lsv.len(),
            lsv.len() <= cv@.len(),
            cv@ == content@,
            forall|k: int| 0 <= k < ls@.len() ==> #[trigger] ls@[k]@ == lsv[k],
            ({
                let st = fence_scan(lsv, i as int);
                &&& block_views(blocks@) == st.blocks
                &&& in_yaml == st.in_yaml
                &&& in_other_fence == st.in_other_fence
                &&& string_views(yaml_lines@) == st.yaml_lines
                &&& yaml_start == st.yaml_start
            }),
        decreases ls@.len() - i,
    {
        let line = &ls[i];
        let t = trim_chars(line.as_slice());
        let num: usize = i + 1;
        if in_yaml {
            if starts_with_str(t.as_slice(), "```") {
                let text = join_with_newline(&yaml_lines);
                proof {
                    assert(yaml_lines@.map_values(|l: String| l@) == string_views(yaml_lines@));
                }
                let ghost old_blocks = blocks@;
                blocks.push((text, yaml_start));
                assert(block_views(blocks@) =~= block_views(old_blocks).push((text@, yaml_start)));
                yaml_lines = Vec::new();
                assert(string_views(yaml_lines@) =~= Seq::<Seq<char>>::empty());
                in_yaml = false;
            } else {
                let ghost old_lines = yaml_lines@;
                yaml_lines.push(string_of(line.as_slice()));
                assert(string_views(yaml_lines@) =~= string_views(old_lines).push(lsv[i as int]));
            }
        } else if in_other_fence {
            if starts_with_str(t.as_slice(), "```") {
                in_other_fence = false;
            }
        } else if starts_with_str(t.as_slice(), "```yaml") {
            in_yaml = true;
            yaml_start = num;
        } else if starts_with_str(t.as_slice(), "```") {
            in_other_fence = true;
        }
        i = i + 1;
    }
    blocks
}


/// The line of the `k`-th block, counted from 1, is a ```` ```yaml ```` fence
/// among the first `n` lines.
pub open spec fn opens_block(ls: Seq<Seq<char>>, n: int, at: usize) -> bool {
    1 <= at <= n && starts_with(trim(ls[at - 1]), "```yaml"@)
}

proof fn lemma_scan_block_lines(ls: Seq<Seq<char>>, n: int)
    requires
        0 <= n <= ls.len(),
        ls.len() <= usize::MAX,
    ensures
        forall|k: int|
            0 <= k < fence_scan(ls, n).blocks.len() ==> opens_block(ls, n, #[trigger] fence_scan(ls, n).blocks[k].1),
        fence_scan(ls, n).in_yaml ==> opens_block(ls, n, fence_scan(ls, n).yaml_start),
    decreases n,
{
    if n > 0 {
        lemma_scan_block_lines(ls, n - 1);
        let prev = fence_scan(ls, n - 1);
        let cur = fence_scan(ls, n);
        assert forall|k: int| 0 <= k < cur.blocks.len() implies opens_block(ls, n, #[trigger] cur.blocks[k].1) by {
            if k < prev.blocks.len() {
                assert(cur.blocks[k] == prev.blocks[k]);
            }
        }
    }
}

/// Each YAML block is reported at the line of its opening ```` ```yaml ````
/// fence, counted from 1.
pub proof fn lemma_block_lines(content: Seq<char>)
    requires
        content.len() <= usize::MAX,
    ensures
        forall|k: int|
            0 <= k < yaml_blocks(content).len() ==> opens_block(
                lines(content),
                lines(content).len() as int,
                #[trigger] yaml_blocks(content)[k].1,
            ),
{
    lemma_lines_from_len(content, 0);
    lemma_scan_block_lines(lines(content), lines(content).len() as int);
}

} // verus!
