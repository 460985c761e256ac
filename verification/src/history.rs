//! The installation history: the record of what was installed with which
//! box, and how its last entry is undone.
use vstd::prelude::*;
use crate::text::{concat2, owned, text_eq};

verus! {

/// One installation in the history.
pub struct InstallRecord {
    /// The package installed (for an AppImage, its source or given name).
    pub package: String,
    /// The box it was installed with.
    pub box_type: String,
    /// When, in RFC 3339 form.
    pub timestamp: String,
}

/// A record as plain values.
pub open spec fn record_view(r: InstallRecord) -> (Seq<char>, Seq<char>, Seq<char>) {
    (r.package@, r.box_type@, r.timestamp@)
}

/// Records as plain values.
pub open spec fn record_views(v: Seq<InstallRecord>) -> Seq<(Seq<char>, Seq<char>, Seq<char>)> {
    Seq::new(v.len(), |i: int| record_view(v[i]))
}

/// How the last installation is undone.
#[derive(Debug, Clone, Copy, PartialEq, Eq, Structural)]
pub enum Uninstaller {
    Apt,
    Pacman,
    Dnf,
    Flatpak,
    AppImage,
}

/// The uninstaller of a box, for the boxes the history can undo.
pub open spec fn uninstaller_of(box_type: Seq<char>) -> Option<Uninstaller> {
    if box_type == "apt"@ {
        Some(Uninstaller::Apt)
    } else if box_type == "pacman"@ {
        Some(Uninstaller::Pacman)
    } else if box_type == "dnf"@ {
        Some(Uninstaller::Dnf)
    } else if box_type == "flatpak"@ {
        Some(Uninstaller::Flatpak)
    } else if box_type == "appimage"@ {
        Some(Uninstaller::AppImage)
    } else {
        None
    }
}

/// The package manager whose packages an uninstaller removes.
pub open spec fn removes_from(u: Uninstaller) -> Seq<char> {
    match u {
        Uninstaller::Apt => "apt"@,
        Uninstaller::Pacman => "pacman"@,
        Uninstaller::Dnf => "dnf"@,
        Uninstaller::Flatpak => "flatpak"@,
        Uninstaller::AppImage => "appimage"@,
    }
}

/// An installation is undone with the uninstaller of the manager that made
/// it: whatever uninstaller is chosen for a record removes from the
/// record's manager, and a record made by a manager that has an
/// uninstaller (apt, pacman, dnf, flatpak, AppImage) gets that one.
pub proof fn law_undo_uses_installing_manager(box_type: Seq<char>)
    ensures
        uninstaller_of(box_type) matches Some(u) ==> removes_from(u) == box_type,
        forall|u: Uninstaller| #[trigger] removes_from(u) == box_type ==> uninstaller_of(box_type) == Some(u),
{
    reveal_strlit("apt");
    reveal_strlit("pacman");
    reveal_strlit("dnf");
    reveal_strlit("flatpak");
    reveal_strlit("appimage");
    assert("apt"@.len() == 3 && "dnf"@.len() == 3 && "pacman"@.len() == 6 && "flatpak"@.len() == 7
        && "appimage"@.len() == 8);
    assert("apt"@ != "dnf"@) by {
        assert("apt"@[0] != "dnf"@[0]);
    }
    assert forall|u: Uninstaller| #[trigger] removes_from(u) == box_type implies uninstaller_of(box_type) == Some(u) by {
        match u {
            Uninstaller::Apt => {},
            Uninstaller::Pacman => {},
            Uninstaller::Dnf => {},
            Uninstaller::Flatpak => {},
            Uninstaller::AppImage => {},
        }
    }
}

/// Add an installation to the end of the history.
pub fn save_install(history: &mut Vec<InstallRecord>, package: &str, box_type: &str, timestamp: String)
    ensures
        record_views(final(history)@) == record_views(old(history)@).push((package@, box_type@, timestamp@)),
{
    let ghost before = record_views(history@);
    let ghost t = timestamp@;
    history.push(InstallRecord { package: owned(package), box_type: owned(box_type), timestamp });
    assert(record_views(history@) =~= before.push((package@, box_type@, t)));
}

/// What undoing the last installation does: the record taken off the
/// history, and how it is uninstalled (or the complaint of an unknown box).
pub struct Undo {
    pub record: InstallRecord,
    pub uninstall: Result<Uninstaller, String>,
}

/// Take the last installation off the history and say how to uninstall it;
/// `None` where the history is empty. The record is gone from the history
/// whether or not its box is known.
pub fn undo_last_install(history: &mut Vec<InstallRecord>) -> (r: Option<Undo>)
    ensures
        match r {
            None => old(history)@.len() == 0 && final(history)@.len() == 0,
            Some(u) => old(history)@.len() > 0 && record_views(final(history)@) == record_views(old(history)@).drop_last()
                && record_view(u.record) == record_view(old(history)@.last()) && match uninstaller_of(u.record.box_type@) {
                    Some(k) => u.uninstall == Ok::<Uninstaller, String>(k),
                    None => u.uninstall matches Err(e) && e@ == "Unknown box type: "@ + u.record.box_type@,
                },
        },
        r matches Some(u) ==> (u.uninstall matches Ok(k) ==> removes_from(k) == u.record.box_type@),
        r matches Some(u) ==> forall|k: Uninstaller| #[trigger] removes_from(k) == u.record.box_type@ ==> u.uninstall
            == Ok::<Uninstaller, String>(k),
{
    let ghost before = history@;
    match history.pop() {
        None => None,
        Some(last) => {
            assert(record_views(history@) =~= record_views(before).drop_last());
            let b = last.box_type.as_str();
            let uninstall = if text_eq(b, "apt") {
                Ok(Uninstaller::Apt)
            } else if text_eq(b, "pacman") {
                Ok(Uninstaller::Pacman)
            } else if text_eq(b, "dnf") {
                Ok(Uninstaller::Dnf)
            } else if text_eq(b, "flatpak") {
                Ok(Uninstaller::Flatpak)
            } else if text_eq(b, "appimage") {
                Ok(Uninstaller::AppImage)
            } else {
                Err(concat2("Unknown box type: ", b))
            };
            proof {
                law_undo_uses_installing_manager(last.box_type@);
            }
            Some(Undo { record: last, uninstall })
        },
    }
}

/// Undoing right after saving an installation takes off exactly the record
/// saved and leaves the history as it was before.
pub proof fn law_undo_undoes_save(h: Seq<(Seq<char>, Seq<char>, Seq<char>)>, x: (Seq<char>, Seq<char>, Seq<char>))
    ensures
        h.push(x).len() > 0,
        h.push(x).drop_last() == h,
        h.push(x).last() == x,
{
    assert(h.push(x).drop_last() =~= h);
}

} // verus!
