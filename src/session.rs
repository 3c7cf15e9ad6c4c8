//! Session state: the input mode and which panel has the focus.

use vstd::arithmetic::div_mod::lemma_add_mod_noop_right;
use vstd::prelude::*;
use vstd::string::StringSliceAdditionalSpecFns;

use crate::numeric::{decimal_nat, push_decimal};
use crate::registry::{Registry, TransformerKind, TRANSFORMER_COUNT};
use crate::resolve::{host_is_little_endian, mode_name, resolution, resolve_in_order, toggled, InputMode};
use crate::transformer::Transformer;

verus! {

/// The focus after a move to the next panel.
pub open spec fn next_focus(f: int) -> int {
    (f + 1) % (TRANSFORMER_COUNT as int)
}

/// The focus after a move to the previous panel; the first wraps to the last.
pub open spec fn previous_focus(f: int) -> int {
    (f - 1) % (TRANSFORMER_COUNT as int)
}

/// The status line for a mode and a focus.
pub open spec fn status_text(m: InputMode, focus: nat) -> Seq<char> {
    seq!['M', ':', ' '] + mode_name(m) + seq![',', ' ', 'I', ':', ' '] + decimal_nat(focus)
}

/// The input mode and the focused panel, for the life of the process, with
/// the byte order that integer literals are laid out in.
pub struct Context {
    pub input_mode: InputMode,
    pub focus_idx: u16,
    pub little_endian: bool,
}

impl Context {
    /// A session in raw mode with the first panel focused, laying out words
    /// in this machine's byte order.
    pub fn new() -> (r: Context)
        ensures
            r.input_mode == InputMode::Raw,
            r.focus_idx == 0,
    {
        Context { input_mode: InputMode::Raw, focus_idx: 0, little_endian: host_is_little_endian() }
    }

    /// Moves the focus to the next panel, wrapping after the last.
    pub fn focus_next(&mut self)
        ensures
            final(self).focus_idx as int == next_focus(old(self).focus_idx as int),
            final(self).input_mode == old(self).input_mode,
            final(self).little_endian == old(self).little_endian,
    {
        self.focus_idx = self.focus_idx.wrapping_add(1) % TRANSFORMER_COUNT;
    }

    /// Moves the focus to the previous panel, wrapping before the first.
    pub fn focus_previous(&mut self)
        ensures
            final(self).focus_idx as int == previous_focus(old(self).focus_idx as int),
            final(self).input_mode == old(self).input_mode,
            final(self).little_endian == old(self).little_endian,
    {
        self.focus_idx = self.focus_idx.wrapping_sub(1) % TRANSFORMER_COUNT;
    }

    /// Switches between raw and smart input.
    pub fn toggle_mode(&mut self)
        ensures
            final(self).input_mode == toggled(old(self).input_mode),
            final(self).focus_idx == old(self).focus_idx,
            final(self).little_endian == old(self).little_endian,
    {
        self.input_mode = self.input_mode.toggle();
    }

    /// The byte buffer for `raw` under the current mode.
    pub fn resolve_input(&self, raw: &str) -> (r: Vec<u8>)
        ensures
            r@ == resolution(raw.spec_bytes(), self.input_mode, self.little_endian),
    {
        resolve_in_order(raw, self.input_mode, self.little_endian)
    }

    /// The focused transformer, when the focus is within the registry.
    pub fn focused(&self, registry: &Registry) -> (r: Option<TransformerKind>)
        ensures
            r == (if (self.focus_idx as int) < registry@.len() {
                Some(registry@[self.focus_idx as int])
            } else {
                None
            }),
    {
        let i = self.focus_idx as usize;
        if i < registry.len() {
            Some(registry.get(i))
        } else {
            None
        }
    }

    /// The title of panel `i`: its label, marked when it has the focus.
    pub fn panel_title(&self, registry: &Registry, i: usize) -> (r: String)
        requires
            i < registry@.len(),
        ensures
            r@ == registry@[i as int].spec_label() + (if i == self.focus_idx as usize {
                seq![' ', '(', 'F', ')']
            } else {
                Seq::<char>::empty()
            }),
    {
        let mut s = String::from_str(registry.get(i).label());
        if i == self.focus_idx as usize {
            proof {
                reveal_strlit(" (F)");
            }
            s.append(" (F)");
        }
        assert(s@ =~= registry@[i as int].spec_label() + (if i == self.focus_idx as usize {
            seq![' ', '(', 'F', ')']
        } else {
            Seq::<char>::empty()
        }));
        s
    }

    /// The status line: the mode and the focus index.
    pub fn status_line(&self) -> (r: String)
        ensures
            r@ == status_text(self.input_mode, self.focus_idx as nat),
    {
        proof {
            reveal_strlit("M: ");
            reveal_strlit(", I: ");
        }
        let mut s = String::from_str("M: ");
        s.append(self.input_mode.name());
        s.append(", I: ");
        push_decimal(&mut s, self.focus_idx as u64);
        assert(s@ =~= status_text(self.input_mode, self.focus_idx as nat));
        s
    }
}

/// A move to the previous panel undoes a move to the next one, and the
/// other way round.
pub proof fn lemma_next_previous_cancel(f: int)
    requires
        0 <= f < TRANSFORMER_COUNT,
    ensures
        previous_focus(next_focus(f)) == f,
        next_focus(previous_focus(f)) == f,
{
}

/// The focus after a series of moves, `true` for next and `false` for previous.
pub open spec fn apply_moves(f: int, moves: Seq<bool>) -> int
    decreases moves.len(),
{
    if moves.len() == 0 {
        f
    } else {
        apply_moves(
            if moves[0] {
                next_focus(f)
            } else {
                previous_focus(f)
            },
            moves.drop_first(),
        )
    }
}

/// Moves to the next panel less moves to the previous one.
pub open spec fn net_moves(moves: Seq<bool>) -> int
    decreases moves.len(),
{
    if moves.len() == 0 {
        0
    } else {
        (if moves[0] {
            1int
        } else {
            -1int
        }) + net_moves(moves.drop_first())
    }
}

/// Any series of moves lands where the net count of steps, taken modulo the
/// number of panels, leads.
pub proof fn lemma_moves_net(f: int, moves: Seq<bool>)
    requires
        0 <= f < TRANSFORMER_COUNT,
    ensures
        apply_moves(f, moves) == (f + net_moves(moves)) % (TRANSFORMER_COUNT as int),
    decreases moves.len(),
{
    let m = TRANSFORMER_COUNT as int;
    if moves.len() == 0 {
        assert(f % m == f);
    } else {
        let step: int = if moves[0] {
            1
        } else {
            -1
        };
        let g = (f + step) % m;
        let rest = moves.drop_first();
        lemma_moves_net(g, rest);
        lemma_add_mod_noop_right(net_moves(rest), f + step, m);
        assert((net_moves(rest) + g) % m == (net_moves(rest) + (f + step)) % m);
        assert(f + net_moves(moves) == net_moves(rest) + (f + step));
    }
}

/// As many moves to the next panel as to the previous one, in any order,
/// bring the focus back to where it started.
pub proof fn lemma_balanced_moves_return(f: int, moves: Seq<bool>)
    requires
        0 <= f < TRANSFORMER_COUNT,
        net_moves(moves) == 0,
    ensures
        apply_moves(f, moves) == f,
{
    lemma_moves_net(f, moves);
}

/// Moving to the next panel once per panel brings the focus back to where it
/// started.
pub proof fn lemma_full_cycle_returns(f: int)
    requires
        0 <= f < TRANSFORMER_COUNT,
    ensures
        apply_moves(f, Seq::new(TRANSFORMER_COUNT as nat, |i: int| true)) == f,
{
    let all = Seq::new(TRANSFORMER_COUNT as nat, |i: int| true);
    lemma_net_all_next(all, 16);
    assert(all.subrange(0, 16) =~= all);
    lemma_moves_net(f, all);
    assert((f + 16) % 16 == f);
}

proof fn lemma_net_all_next(all: Seq<bool>, k: nat)
    requires
        all.len() == 16,
        forall|i: int| 0 <= i < 16 ==> all[i],
        k <= 16,
    ensures
        net_moves(all.subrange(16 - k, 16)) == k,
    decreases k,
{
    if k > 0 {
        let s = all.subrange(16 - k, 16);
        assert(s.drop_first() =~= all.subrange(16 - (k - 1), 16));
        lemma_net_all_next(all, (k - 1) as nat);
    }
}

/// The texts of the panels of `reg` for the text `raw`.
pub open spec fn panel_texts(
    reg: Seq<TransformerKind>,
    raw: Seq<u8>,
    mode: InputMode,
    little: bool,
) -> Seq<Seq<char>> {
    Seq::new(reg.len(), |i: int| reg[i].spec_transform(resolution(raw, mode, little)))
}

/// Toggling the mode twice restores it, so the unchanged text resolves to the
/// same buffer and every panel renders the same text as before.
pub proof fn lemma_toggle_twice(reg: Seq<TransformerKind>, raw: Seq<u8>, m: InputMode, little: bool)
    ensures
        toggled(toggled(m)) == m,
        resolution(raw, toggled(toggled(m)), little) == resolution(raw, m, little),
        panel_texts(reg, raw, toggled(toggled(m)), little) == panel_texts(reg, raw, m, little),
{
}

} // verus!
