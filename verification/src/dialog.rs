//! Free-text state of the create-container dialog and the argument list it
//! submits.
//!
//! The dialog holds six fields and a cyclic focus index. Submission validates
//! that an image name was given and turns the fields into the argument vector
//! for the container engine's `run` command: comma-separated entries of the
//! ports, environment and volumes fields each become a flagged pair, and the
//! free-form command is split on whitespace.

use vstd::prelude::*;

use crate::text::{
    spec_split, spec_split_ws, spec_trim, split_str, split_whitespace_str, trim_str,
};

verus! {

/// Relies on `String::push`: appends the given character to the end of the
/// string.
pub assume_specification[ String::push ](s: &mut String, ch: char)
    ensures
        final(s)@ == old(s)@.push(ch),
;

/// Relies on `String::pop`: removes and returns the last character, or
/// returns nothing and leaves the string as it is when it is empty.
pub assume_specification[ String::pop ](s: &mut String) -> (r: Option<char>)
    ensures
        old(s)@.len() == 0 ==> r is None && final(s)@ == old(s)@,
        old(s)@.len() > 0 ==> r == Some(old(s)@.last()) && final(s)@ == old(s)@.drop_last(),
;

/// The six free-text fields of the create dialog plus the focused field
/// index.
pub struct CreateDialogState {
    pub selected_field: usize,
    pub image_name: String,
    pub container_name: String,
    pub ports: String,
    pub env_vars: String,
    pub volumes: String,
    pub command: String,
}

impl CreateDialogState {
    /// The focus index stays on one of the six fields.
    pub open spec fn wf(self) -> bool {
        self.selected_field <= 5
    }

    /// The field index that edits apply to; an out-of-range focus falls back
    /// to the image field.
    pub open spec fn current_index(self) -> int {
        if self.selected_field <= 5 {
            self.selected_field as int
        } else {
            0
        }
    }

    /// The field at index `i`.
    pub open spec fn field_value(self, i: int) -> String {
        if i == 1 {
            self.container_name
        } else if i == 2 {
            self.ports
        } else if i == 3 {
            self.env_vars
        } else if i == 4 {
            self.volumes
        } else if i == 5 {
            self.command
        } else {
            self.image_name
        }
    }

    /// This state with the field at index `i` replaced by `v`.
    pub open spec fn with_field_value(self, i: int, v: String) -> Self {
        if i == 1 {
            (Self { container_name: v, ..self })
        } else if i == 2 {
            (Self { ports: v, ..self })
        } else if i == 3 {
            (Self { env_vars: v, ..self })
        } else if i == 4 {
            (Self { volumes: v, ..self })
        } else if i == 5 {
            (Self { command: v, ..self })
        } else {
            (Self { image_name: v, ..self })
        }
    }

    /// All fields empty and the focus on the image field, as a dialog is
    /// when it opens and after it is discarded.
    pub open spec fn is_fresh(self) -> bool {
        &&& self.selected_field == 0
        &&& self.image_name@.len() == 0
        &&& self.container_name@.len() == 0
        &&& self.ports@.len() == 0
        &&& self.env_vars@.len() == 0
        &&& self.volumes@.len() == 0
        &&& self.command@.len() == 0
    }

    /// A fresh dialog: all fields empty, focus on the image field.
    pub fn new() -> (r: Self)
        ensures
            r.wf(),
            r.is_fresh(),
    {
        CreateDialogState {
            selected_field: 0,
            image_name: String::new(),
            container_name: String::new(),
            ports: String::new(),
            env_vars: String::new(),
            volumes: String::new(),
            command: String::new(),
        }
    }

    /// A mutable borrow of the focused field; the rest of the dialog is
    /// untouched.
    pub fn get_current_field_mut(&mut self) -> (f: &mut String)
        ensures
            *f == old(self).field_value(old(self).current_index()),
            *final(self) == old(self).with_field_value(old(self).current_index(), *final(f)),
    {
        match self.selected_field {
            0 => &mut self.image_name,
            1 => &mut self.container_name,
            2 => &mut self.ports,
            3 => &mut self.env_vars,
            4 => &mut self.volumes,
            5 => &mut self.command,
            _ => &mut self.image_name,
        }
    }

    /// Moves the focus to the next field, wrapping after the last.
    pub fn focus_next(&mut self)
        requires
            old(self).wf(),
        ensures
            final(self).wf(),
            final(self).selected_field == (old(self).selected_field + 1) % 6,
            *final(self) == (CreateDialogState {
                selected_field: final(self).selected_field,
                ..*old(self)
            }),
    {
        self.selected_field = (self.selected_field + 1) % 6;
    }

    /// Moves the focus to the previous field, wrapping before the first.
    pub fn focus_previous(&mut self)
        requires
            old(self).wf(),
        ensures
            final(self).wf(),
            final(self).selected_field == (if old(self).selected_field == 0 {
                5int
            } else {
                old(self).selected_field - 1
            }),
            *final(self) == (CreateDialogState {
                selected_field: final(self).selected_field,
                ..*old(self)
            }),
    {
        self.selected_field = if self.selected_field == 0 {
            5
        } else {
            self.selected_field - 1
        };
    }

    /// Appends `c` to the focused field.
    pub fn type_char(&mut self, c: char)
        ensures
            *final(self) == old(self).with_field_value(
                old(self).current_index(),
                final(self).field_value(old(self).current_index()),
            ),
            final(self).field_value(old(self).current_index())@ == old(self).field_value(
                old(self).current_index(),
            )@.push(c),
    {
        let f = self.get_current_field_mut();
        f.push(c);
    }

    /// Removes the last character of the focused field, if any.
    pub fn backspace(&mut self)
        ensures
            *final(self) == old(self).with_field_value(
                old(self).current_index(),
                final(self).field_value(old(self).current_index()),
            ),
            ({
                let before = old(self).field_value(old(self).current_index())@;
                let after = final(self).field_value(old(self).current_index())@;
                if before.len() == 0 {
                    after == before
                } else {
                    after == before.drop_last()
                }
            }),
    {
        let f = self.get_current_field_mut();
        f.pop();
    }
}

/// A flagged pair for each comma-separated entry, trimmed, in order.
pub open spec fn flag_args(parts: Seq<Seq<char>>, flag: Seq<char>) -> Seq<Seq<char>>
    decreases parts.len(),
{
    if parts.len() == 0 {
        Seq::empty()
    } else {
        flag_args(parts.drop_last(), flag) + seq![flag, spec_trim(parts.last())]
    }
}

/// The `run` subcommand word.
pub open spec fn run_arg() -> Seq<char> {
    seq!['r', 'u', 'n']
}

/// The detach flag.
pub open spec fn detach_arg() -> Seq<char> {
    seq!['-', 'd']
}

/// The container-name flag.
pub open spec fn name_flag() -> Seq<char> {
    seq!['-', '-', 'n', 'a', 'm', 'e']
}

/// The port-mapping flag.
pub open spec fn port_flag() -> Seq<char> {
    seq!['-', 'p']
}

/// The environment-variable flag.
pub open spec fn env_flag() -> Seq<char> {
    seq!['-', 'e']
}

/// The volume-mount flag.
pub open spec fn volume_flag() -> Seq<char> {
    seq!['-', 'v']
}

/// The argument vector submitted for a filled-in dialog: `run -d`, the
/// optional name, a flagged pair per comma-separated port, environment and
/// volume entry, the image, then the whitespace-split command words.
pub open spec fn spec_run_args(d: CreateDialogState) -> Seq<Seq<char>> {
    seq![run_arg(), detach_arg()] + (if d.container_name@.len() > 0 {
        seq![name_flag(), d.container_name@]
    } else {
        Seq::empty()
    }) + (if d.ports@.len() > 0 {
        flag_args(spec_split(d.ports@, ','), port_flag())
    } else {
        Seq::empty()
    }) + (if d.env_vars@.len() > 0 {
        flag_args(spec_split(d.env_vars@, ','), env_flag())
    } else {
        Seq::empty()
    }) + (if d.volumes@.len() > 0 {
        flag_args(spec_split(d.volumes@, ','), volume_flag())
    } else {
        Seq::empty()
    }) + seq![d.image_name@] + spec_split_ws(d.command@)
}

/// Appends a flagged pair for each entry of `parts` to `args`.
fn push_flag_args(args: &mut Vec<String>, parts: &Vec<String>, flag: &str)
    ensures
        final(args).deep_view() == old(args).deep_view() + flag_args(parts.deep_view(), flag@),
{
    let mut i: usize = 0;
    proof {
        assert(parts.deep_view().take(0) =~= Seq::<Seq<char>>::empty());
        assert(flag_args(parts.deep_view().take(0), flag@) =~= Seq::<Seq<char>>::empty());
        assert(args.deep_view() + flag_args(parts.deep_view().take(0), flag@) =~= args.deep_view());
    }
    while i < parts.len()
        invariant
            i <= parts@.len(),
            args.deep_view() == old(args).deep_view() + flag_args(
                parts.deep_view().take(i as int),
                flag@,
            ),
        decreases parts@.len() - i,
    {
        let ghost before = args.deep_view();
        args.push(flag.to_owned());
        let trimmed = trim_str(parts[i].as_str());
        args.push(trimmed);
        proof {
            let pv = parts.deep_view();
            assert(args.deep_view() =~= before + seq![flag@, spec_trim(pv[i as int])]);
            assert(pv.take(i + 1).drop_last() =~= pv.take(i as int));
            assert(pv.take(i + 1).last() == pv[i as int]);
            assert(args.deep_view() =~= old(args).deep_view() + flag_args(pv.take(i + 1), flag@));
        }
        i = i + 1;
    }
    proof {
        assert(parts.deep_view().take(parts@.len() as int) =~= parts.deep_view());
    }
}

/// The argument vector for creating the described container, or nothing when
/// the required image name is empty — the one validation the dialog applies.
pub fn build_run_args(d: &CreateDialogState) -> (r: Option<Vec<String>>)
    ensures
        d.image_name@.len() == 0 <==> r is None,
        r matches Some(args) ==> args.deep_view() == spec_run_args(*d),
{
    proof {
        reveal_strlit("run");
        reveal_strlit("-d");
        reveal_strlit("--name");
        reveal_strlit("-p");
        reveal_strlit("-e");
        reveal_strlit("-v");
        assert("-p"@ =~= port_flag());
        assert("-e"@ =~= env_flag());
        assert("-v"@ =~= volume_flag());
    }
    if d.image_name.as_str().is_empty() {
        return None;
    }
    let mut args: Vec<String> = Vec::new();
    args.push(String::from_str("run"));
    args.push(String::from_str("-d"));
    let ghost seg_base = seq![run_arg(), detach_arg()];
    proof {
        assert(args.deep_view() =~~= seg_base);
    }
    if !d.container_name.as_str().is_empty() {
        args.push(String::from_str("--name"));
        args.push(d.container_name.clone());
    }
    let ghost seg_name = seg_base + (if d.container_name@.len() > 0 {
        seq![name_flag(), d.container_name@]
    } else {
        Seq::empty()
    });
    proof {
        assert(args.deep_view() =~~= seg_name);
    }
    if !d.ports.as_str().is_empty() {
        let parts = split_str(d.ports.as_str(), ',');
        push_flag_args(&mut args, &parts, "-p");
    }
    let ghost seg_ports = seg_name + (if d.ports@.len() > 0 {
        flag_args(spec_split(d.ports@, ','), port_flag())
    } else {
        Seq::empty()
    });
    proof {
        assert(args.deep_view() =~~= seg_ports);
    }
    if !d.env_vars.as_str().is_empty() {
        let parts = split_str(d.env_vars.as_str(), ',');
        push_flag_args(&mut args, &parts, "-e");
    }
    let ghost seg_env = seg_ports + (if d.env_vars@.len() > 0 {
        flag_args(spec_split(d.env_vars@, ','), env_flag())
    } else {
        Seq::empty()
    });
    proof {
        assert(args.deep_view() =~~= seg_env);
    }
    if !d.volumes.as_str().is_empty() {
        let parts = split_str(d.volumes.as_str(), ',');
        push_flag_args(&mut args, &parts, "-v");
    }
    let ghost seg_vol = seg_env + (if d.volumes@.len() > 0 {
        flag_args(spec_split(d.volumes@, ','), volume_flag())
    } else {
        Seq::empty()
    });
    proof {
        assert(args.deep_view() =~~= seg_vol);
    }
    args.push(d.image_name.clone());
    let words = split_whitespace_str(d.command.as_str());
    let mut w: usize = 0;
    let ghost seg_image = seg_vol + seq![d.image_name@];
    proof {
        assert(args.deep_view() =~~= seg_image);
        assert(spec_split_ws(d.command@).take(0) =~= Seq::<Seq<char>>::empty());
        assert(args.deep_view() =~= seg_image + spec_split_ws(d.command@).take(0));
    }
    while w < words.len()
        invariant
            w <= words@.len(),
            words.deep_view() == spec_split_ws(d.command@),
            args.deep_view() == seg_image + spec_split_ws(d.command@).take(w as int),
        decreases words@.len() - w,
    {
        let ghost before = args.deep_view();
        args.push(words[w].clone());
        proof {
            let wv = spec_split_ws(d.command@);
            assert(args.deep_view() =~= before.push(wv[w as int]));
            assert(before.push(wv[w as int]) =~= seg_image + wv.take(w + 1));
        }
        w = w + 1;
    }
    proof {
        assert(spec_split_ws(d.command@).take(words@.len() as int) =~= spec_split_ws(d.command@));
        assert(args.deep_view() =~= spec_run_args(*d));
    }
    Some(args)
}

} // verus!
