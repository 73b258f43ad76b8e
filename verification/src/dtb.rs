//! Structural well-formedness of a flattened device-tree blob.
//!
//! The device-tree parser this library leans on assumes, deep inside, that
//! the blob it walks is laid out honestly: blocks inside the buffer, node
//! and property names NUL-terminated ASCII, property values in bounds,
//! cell-count properties at least one cell wide, tokens balanced and in
//! strict order, nesting bounded. [`blob_ok`] writes those assumptions down
//! as one predicate over the bytes, and [`check_blob`] decides it in
//! verified code, so that the parser is only ever called on blobs it can
//! process without aborting. The check is deliberately strict: a blob it
//! accepts is well-formed; one it rejects is simply treated as invalid,
//! the fatal condition this boot design already assigns to a bad blob.

use vstd::prelude::*;

verus! {

/// The big-endian 32-bit value at byte offset `i`.
pub open spec fn be32(b: Seq<u8>, i: int) -> int {
    (b[i] as int) * 0x100_0000 + (b[i + 1] as int) * 0x1_0000 + (b[i + 2] as int) * 0x100 + (b[i
        + 3] as int)
}

/// `n` rounded up to the next multiple of 4.
pub open spec fn pad4(n: int) -> int {
    n + ((4 - n % 4) % 4)
}

/// Position of the first NUL byte in `b[o..end)` provided every byte before
/// it is printable ASCII; `-1` when there is no such NUL.
pub open spec fn first_nul_ascii(b: Seq<u8>, o: int, end: int) -> int
    decreases end - o,
{
    if o < 0 || o >= end || end > b.len() {
        -1
    } else if b[o] == 0 {
        o
    } else if b[o] >= 128 {
        -1
    } else {
        first_nul_ascii(b, o + 1, end)
    }
}

/// Walk the run of property tokens starting at `p` inside the structure
/// region `[.., se)`, with the strings region at `[ts, te)`. The result is
/// the position of the first non-property token, or `-1` if a property is
/// malformed: header or value out of bounds, a name that is not a
/// NUL-terminated ASCII string inside the strings region or that starts
/// with `/`, or a `#`-prefixed (cell-count) property shorter than one cell.
pub open spec fn props_end(b: Seq<u8>, se: int, ts: int, te: int, p: int) -> int
    decreases se - p, 1int,
{
    if p < 0 || p + 4 > se {
        -1
    } else if be32(b, p) != 3 {
        p
    } else if p + 12 > se {
        -1
    } else {
        let lv = be32(b, p + 4);
        let no = be32(b, p + 8);
        if p + 12 + lv > se {
            -1
        } else if no + 1 > te - ts {
            -1
        } else if first_nul_ascii(b, ts + no, te) < 0 {
            -1
        } else if b[ts + no] == 35 && lv < 4 {
            -1
        } else if b[ts + no] == 47 {
            -1
        } else {
            let pe = p + 12 + pad4(lv);
            if !(p < pe && pe <= se) {
                -1
            } else {
                props_end(b, se, ts, te, pe)
            }
        }
    }
}

/// Walk the run of child subtrees starting at `q`: the position of the
/// first token that does not begin a node, or `-1` if a child is malformed.
pub open spec fn children_end(b: Seq<u8>, se: int, ts: int, te: int, q: int, depth: int) -> int
    decreases se - q, 2int,
{
    if q < 0 || q + 4 > se {
        -1
    } else if be32(b, q) != 1 {
        q
    } else {
        let j = node_end(b, se, ts, te, q, depth + 1);
        if !(q < j && j <= se) {
            -1
        } else {
            children_end(b, se, ts, te, j, depth)
        }
    }
}

/// Walk one node starting at `i`: begin-node token, NUL-terminated ASCII
/// name padded to 4 bytes, properties, children, end-node token, with
/// nesting at most 32 deep. The result is the position just past the node's
/// end token, or `-1` if the node is malformed.
pub open spec fn node_end(b: Seq<u8>, se: int, ts: int, te: int, i: int, depth: int) -> int
    decreases se - i, 0int,
{
    if depth > 32 {
        -1
    } else if i < 0 || i + 4 > se {
        -1
    } else if be32(b, i) != 1 {
        -1
    } else {
        let n = first_nul_ascii(b, i + 4, se);
        if n < 0 {
            -1
        } else {
            let p = i + 4 + pad4(n - (i + 4) + 1);
            if !(i < p && p <= se) {
                -1
            } else {
                let q = props_end(b, se, ts, te, p);
                if !(p <= q && q <= se) {
                    -1
                } else {
                    let r = children_end(b, se, ts, te, q, depth);
                    if !(q <= r && r + 4 <= se) {
                        -1
                    } else if be32(b, r) != 2 {
                        -1
                    } else {
                        r + 4
                    }
                }
            }
        }
    }
}

/// The structure region `[ss, se)` holds exactly one well-formed root node,
/// and whatever follows it is neither a begin-node, an end-node, nor a NOP
/// token — so a walk over all nodes stops right there instead of skipping
/// ahead into unvalidated bytes.
pub open spec fn struct_ok(b: Seq<u8>, ss: int, se: int, ts: int, te: int) -> bool {
    let j = node_end(b, se, ts, te, ss, 1);
    &&& j >= 0
    &&& (j + 4 > se || (be32(b, j) != 1 && be32(b, j) != 2 && be32(b, j) != 4))
}

/// A structurally well-formed flattened device-tree blob: readable header
/// with the expected magic, total size within the buffer, structure and
/// strings blocks within the buffer, and a well-formed structure block.
pub open spec fn blob_ok(b: Seq<u8>) -> bool {
    &&& b.len() >= 40
    &&& be32(b, 0) == 0xd00d_feed
    &&& be32(b, 4) <= b.len()
    &&& be32(b, 8) + be32(b, 36) <= b.len()
    &&& be32(b, 12) + be32(b, 32) <= b.len()
    &&& struct_ok(
        b,
        be32(b, 8),
        be32(b, 8) + be32(b, 36),
        be32(b, 12),
        be32(b, 12) + be32(b, 32),
    )
}

fn be32_at(b: &[u8], i: usize) -> (r: u32)
    requires
        i + 4 <= b@.len(),
    ensures
        r as int == be32(b@, i as int),
{
    (b[i] as u32) * 0x100_0000 + (b[i + 1] as u32) * 0x1_0000 + (b[i + 2] as u32) * 0x100 + (b[i
        + 3] as u32)
}

fn find_nul_ascii(b: &[u8], o: usize, end: usize) -> (r: Option<usize>)
    requires
        o <= end,
        end <= b@.len(),
    ensures
        match r {
            Some(j) => first_nul_ascii(b@, o as int, end as int) == j && o <= j < end,
            None => first_nul_ascii(b@, o as int, end as int) == -1,
        },
{
    let mut k: usize = o;
    while k < end
        invariant
            o <= k <= end,
            end <= b@.len(),
            first_nul_ascii(b@, o as int, end as int) == first_nul_ascii(b@, k as int, end as int),
        decreases end - k,
    {
        let byte = b[k];
        if byte == 0 {
            return Some(k);
        }
        if byte >= 128 {
            return None;
        }
        proof {
            assert(first_nul_ascii(b@, k as int, end as int) == first_nul_ascii(
                b@,
                k as int + 1,
                end as int,
            ));
        }
        k = k + 1;
    }
    None
}

fn check_props(b: &[u8], se: usize, ts: usize, te: usize, p: usize) -> (r: Option<usize>)
    requires
        se <= b@.len(),
        ts <= te,
        te <= b@.len(),
        p <= se,
    ensures
        match r {
            Some(q) => props_end(b@, se as int, ts as int, te as int, p as int) == q && p <= q
                <= se,
            None => props_end(b@, se as int, ts as int, te as int, p as int) == -1,
        },
{
    let mut q: usize = p;
    while se - q >= 4
        invariant
            p <= q <= se,
            se <= b@.len(),
            ts <= te,
            te <= b@.len(),
            props_end(b@, se as int, ts as int, te as int, p as int) == props_end(
                b@,
                se as int,
                ts as int,
                te as int,
                q as int,
            ),
        decreases se - q,
    {
        let tok = be32_at(b, q);
        if tok != 3 {
            return Some(q);
        }
        if se - q < 12 {
            return None;
        }
        let lv = be32_at(b, q + 4) as usize;
        let no = be32_at(b, q + 8) as usize;
        if lv > se - (q + 12) {
            return None;
        }
        if no >= te - ts {
            return None;
        }
        if find_nul_ascii(b, ts + no, te).is_none() {
            return None;
        }
        let namebyte = b[ts + no];
        if namebyte == 35 && lv < 4 {
            return None;
        }
        if namebyte == 47 {
            return None;
        }
        let rem = lv % 4;
        let pad: usize = if rem == 0 {
            0
        } else {
            4 - rem
        };
        proof {
            assert(pad4(lv as int) == lv + pad);
        }
        if pad > se - (q + 12 + lv) {
            return None;
        }
        let pe = q + 12 + lv + pad;
        proof {
            assert(props_end(b@, se as int, ts as int, te as int, q as int) == props_end(
                b@,
                se as int,
                ts as int,
                te as int,
                pe as int,
            ));
        }
        q = pe;
    }
    None
}

fn check_node(b: &[u8], se: usize, ts: usize, te: usize, i: usize, depth: usize) -> (r: Option<
    usize,
>)
    requires
        se <= b@.len(),
        ts <= te,
        te <= b@.len(),
        i <= se,
    ensures
        match r {
            Some(j) => node_end(b@, se as int, ts as int, te as int, i as int, depth as int) == j
                && i < j <= se,
            None => node_end(b@, se as int, ts as int, te as int, i as int, depth as int) == -1,
        },
    decreases se - i, 0int,
{
    if depth > 32 {
        return None;
    }
    if se - i < 4 {
        return None;
    }
    let tok = be32_at(b, i);
    if tok != 1 {
        return None;
    }
    let n = match find_nul_ascii(b, i + 4, se) {
        None => {
            return None;
        },
        Some(n) => n,
    };
    let name_len = n - (i + 4) + 1;
    let rem = name_len % 4;
    let pad: usize = if rem == 0 {
        0
    } else {
        4 - rem
    };
    proof {
        assert(pad4(name_len as int) == name_len + pad);
    }
    let after = n + 1;
    if pad > se - after {
        return None;
    }
    let p = after + pad;
    proof {
        assert(p as int == i + 4 + pad4(n as int - (i + 4) + 1));
    }
    let q = match check_props(b, se, ts, te, p) {
        None => {
            return None;
        },
        Some(q) => q,
    };
    let r2 = match check_children(b, se, ts, te, q, depth) {
        None => {
            return None;
        },
        Some(c) => c,
    };
    if se - r2 < 4 {
        return None;
    }
    let tok2 = be32_at(b, r2);
    if tok2 != 2 {
        return None;
    }
    Some(r2 + 4)
}

fn check_children(b: &[u8], se: usize, ts: usize, te: usize, q: usize, depth: usize) -> (r: Option<
    usize,
>)
    requires
        se <= b@.len(),
        ts <= te,
        te <= b@.len(),
        q <= se,
        depth <= 32,
    ensures
        match r {
            Some(c) => children_end(b@, se as int, ts as int, te as int, q as int, depth as int)
                == c && q <= c <= se,
            None => children_end(b@, se as int, ts as int, te as int, q as int, depth as int)
                == -1,
        },
    decreases se - q, 1int,
{
    let mut cur: usize = q;
    while se - cur >= 4
        invariant
            q <= cur <= se,
            se <= b@.len(),
            ts <= te,
            te <= b@.len(),
            depth <= 32,
            children_end(b@, se as int, ts as int, te as int, q as int, depth as int)
                == children_end(b@, se as int, ts as int, te as int, cur as int, depth as int),
        decreases se - cur,
    {
        let tok = be32_at(b, cur);
        if tok != 1 {
            return Some(cur);
        }
        let j = match check_node(b, se, ts, te, cur, depth + 1) {
            None => {
                return None;
            },
            Some(j) => j,
        };
        proof {
            assert(children_end(b@, se as int, ts as int, te as int, cur as int, depth as int)
                == children_end(b@, se as int, ts as int, te as int, j as int, depth as int));
        }
        cur = j;
    }
    None
}

/// Decide [`blob_ok`]: whether the blob is a structurally well-formed
/// flattened device tree that the parser can walk without aborting.
pub fn check_blob(blob: &[u8]) -> (r: bool)
    ensures
        r == blob_ok(blob@),
{
    if blob.len() < 40 {
        return false;
    }
    let magic = be32_at(blob, 0);
    if magic != 0xd00d_feed {
        return false;
    }
    let n: u64 = blob.len() as u64;
    let total: u64 = be32_at(blob, 4) as u64;
    if total > n {
        return false;
    }
    let offs: u64 = be32_at(blob, 8) as u64;
    let sizes: u64 = be32_at(blob, 36) as u64;
    if offs + sizes > n {
        return false;
    }
    let offt: u64 = be32_at(blob, 12) as u64;
    let sizet: u64 = be32_at(blob, 32) as u64;
    if offt + sizet > n {
        return false;
    }
    let ss = offs as usize;
    let se = ss + (sizes as usize);
    let ts = offt as usize;
    let te = ts + (sizet as usize);
    match check_node(blob, se, ts, te, ss, 1) {
        None => false,
        Some(j) => {
            if se - j < 4 {
                true
            } else {
                let t = be32_at(blob, j);
                t != 1 && t != 2 && t != 4
            }
        },
    }
}

} // verus!
