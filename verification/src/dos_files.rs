//! Simulated DOS-era filenames, handed out one by one in a random order.

use vstd::prelude::*;
use crate::rng::shuffle_vec;

verus! {

/// The fixed catalogue of DOS-era filenames: system files, external
/// commands, drivers, configuration files, office suites, utilities and
/// games, in their listed order.
pub open spec fn spec_catalogue() -> Seq<Seq<char>> {
    seq![
        "IO.SYS"@,
        "MSDOS.SYS"@,
        "COMMAND.COM"@,
        "AUTOEXEC.BAT"@,
        "CONFIG.SYS"@,
        "DBLSPACE.BIN"@,
        "DRVSPACE.BIN"@,
        "APPEND.EXE"@,
        "ATTRIB.EXE"@,
        "CHKDSK.EXE"@,
        "CHOICE.COM"@,
        "DEBUG.EXE"@,
        "DEFRAG.EXE"@,
        "DELTREE.EXE"@,
        "DISKCOMP.COM"@,
        "DISKCOPY.COM"@,
        "DOSKEY.COM"@,
        "DOSSHELL.EXE"@,
        "EDIT.COM"@,
        "EDLIN.EXE"@,
        "EMM386.EXE"@,
        "EXPAND.EXE"@,
        "FASTHELP.EXE"@,
        "FASTOPEN.EXE"@,
        "FC.EXE"@,
        "FDISK.EXE"@,
        "FIND.EXE"@,
        "FORMAT.COM"@,
        "GRAFTABL.COM"@,
        "GRAPHICS.COM"@,
        "HELP.COM"@,
        "INTERLNK.EXE"@,
        "INTERSVR.EXE"@,
        "KEYB.COM"@,
        "LABEL.EXE"@,
        "LOADFIX.COM"@,
        "MEM.EXE"@,
        "MEMMAKER.EXE"@,
        "MODE.COM"@,
        "MORE.COM"@,
        "MOVE.EXE"@,
        "MSAV.EXE"@,
        "MSBACKUP.EXE"@,
        "MSD.EXE"@,
        "NLSFUNC.EXE"@,
        "POWER.EXE"@,
        "PRINT.EXE"@,
        "QBASIC.EXE"@,
        "REPLACE.EXE"@,
        "RESTORE.EXE"@,
        "SCANDISK.EXE"@,
        "SETVER.EXE"@,
        "SHARE.EXE"@,
        "SIZER.EXE"@,
        "SMARTDRV.EXE"@,
        "SORT.EXE"@,
        "SUBST.EXE"@,
        "SYS.COM"@,
        "TREE.COM"@,
        "UNDELETE.EXE"@,
        "UNFORMAT.COM"@,
        "VSAFE.COM"@,
        "XCOPY.EXE"@,
        "HIMEM.SYS"@,
        "EMM386.EXE"@,
        "RAMDRIVE.SYS"@,
        "ANSI.SYS"@,
        "COUNTRY.SYS"@,
        "DISPLAY.SYS"@,
        "DRIVER.SYS"@,
        "KEYBOARD.SYS"@,
        "PRINTER.SYS"@,
        "MOUSE.COM"@,
        "MOUSE.SYS"@,
        "SETVER.EXE"@,
        "SMARTDRV.EXE"@,
        "AUTOEXEC.UMB"@,
        "AUTOEXEC.DOS"@,
        "CONFIG.UMB"@,
        "CONFIG.DOS"@,
        "NETWORKS.TXT"@,
        "README.TXT"@,
        "APPS.HLP"@,
        "MSBACKUP.INI"@,
        "MSBACKUP.CFG"@,
        "MSAV.INI"@,
        "DEFRAG.INI"@,
        "QBASIC.INI"@,
        "WP\\WP.EXE"@,
        "WP\\WP.FIL"@,
        "WP\\STANDARD.PRS"@,
        "WP\\MACROS.WPM"@,
        "WP\\STYLES.STY"@,
        "WP\\GRAPHCNV.EXE"@,
        "WP\\WPINFO.TXT"@,
        "123\\123.EXE"@,
        "123\\123.CNF"@,
        "123\\WYSIWYG.CNF"@,
        "123\\DEFAULT.FNT"@,
        "123\\SAMPLES\\SALES.WK1"@,
        "123\\SAMPLES\\FINANCE.WK1"@,
        "DBASE\\DBASE.EXE"@,
        "DBASE\\DBASE.RES"@,
        "DBASE\\SQLHOME\\SQL.EXE"@,
        "DBASE\\SAMPLES\\CLIENTS.DBF"@,
        "DBASE\\SAMPLES\\ORDERS.DBF"@,
        "DBASE\\SAMPLES\\ITEMS.NDX"@,
        "DBASE\\TUTORIAL\\TUTOR.DBF"@,
        "NORTON\\NU.EXE"@,
        "NORTON\\SPEEDISK.EXE"@,
        "NORTON\\DISKDOC.EXE"@,
        "NORTON\\UNERASE.EXE"@,
        "NORTON\\SYSINFO.EXE"@,
        "DOOM\\DOOM.EXE"@,
        "DOOM\\DOOM.WAD"@,
        "DOOM\\SETUP.EXE"@,
        "DOOM\\DEHACKED.EXE"@,
        "DOOM\\DM.WAD"@,
        "DOOM\\DOOM2.WAD"@,
        "DOOM\\TNT.WAD"@,
        "DOOM\\PLUTONIA.WAD"@,
        "DUKE3D\\DUKE3D.EXE"@,
        "DUKE3D\\DUKE.RTS"@,
        "DUKE3D\\SETUP.EXE"@,
        "DUKE3D\\USER.CON"@,
        "DUKE3D\\GAME.CON"@,
        "DUKE3D\\DUKEMATCH.CON"@,
        "WOLF3D\\WOLF3D.EXE"@,
        "WOLF3D\\VGAHEAD.V3D"@,
        "WOLF3D\\VGAGRAPH.V3D"@,
        "WOLF3D\\VSWAP.V3D"@,
        "WOLF3D\\AUDIO.W3D"@,
        "WOLF3D\\MAPHEAD.W3D"@,
        "CIV\\CIV.EXE"@,
        "CIV\\MAP.GIF"@,
        "CIV\\CIV.SVE"@,
        "CIV\\DIPLOMAT.TXT"@,
        "CIV\\INTRO.EXE"@,
        "MONKEY\\MONKEY.EXE"@,
        "MONKEY\\000.LFL"@,
        "MONKEY\\901.LFL"@,
        "MONKEY\\DISK01.LEC"@,
        "WINDOWS\\WIN.COM"@,
        "WINDOWS\\SYSTEM.INI"@,
        "WINDOWS\\WIN.INI"@,
        "WINDOWS\\PROGMAN.EXE"@,
        "WINDOWS\\PROGMAN.INI"@,
        "WINDOWS\\SYSTEM\\GDI.EXE"@,
        "WINDOWS\\SYSTEM\\USER.EXE"@,
        "WINDOWS\\SYSTEM\\KRNL386.EXE"@,
        "WINDOWS\\SYSTEM\\VGA.DRV"@,
        "WINDOWS\\SYSTEM\\COMM.DRV"@,
        "WINDOWS\\SYSTEM\\MMSOUND.DRV"@,
        "WINDOWS\\SYSTEM\\SHELL.DLL"@,
        "WINDOWS\\SYSTEM\\WINFILE.EXE"@,
        "WINDOWS\\SOL.EXE"@,
        "WINDOWS\\WINMINE.EXE"@,
        "WINDOWS\\CLOCK.EXE"@,
        "WINDOWS\\WRITE.EXE"@,
        "WINDOWS\\NOTEPAD.EXE"@,
        "WINDOWS\\REGEDIT.EXE"@,
        "WINDOWS\\CONTROL.EXE"@,
        "WINDOWS\\CALC.EXE"@,
        "WINDOWS\\CARDFILE.EXE"@,
    ]
}

/// Append one catalogue name.
fn push_catalogue_name(v: &mut Vec<String>, name: &str)
    ensures
        final(v)@.len() == old(v)@.len() + 1,
        final(v)@[final(v)@.len() - 1]@ == name@,
        forall|k: int| 0 <= k < old(v)@.len() ==> final(v)@[k] == old(v)@[k],
{
    v.push(name.to_owned());
}

/// Build the full filename catalogue, matching `spec_catalogue` entry for
/// entry.
#[verifier::rlimit(100)]
fn catalogue() -> (r: Vec<String>)
    ensures
        r@.len() == spec_catalogue().len(),
        forall|k: int| 0 <= k < r@.len() ==> (#[trigger] r@[k])@ == spec_catalogue()[k],
{
    let mut v: Vec<String> = Vec::new();
    push_catalogue_name(&mut v, "IO.SYS");
    push_catalogue_name(&mut v, "MSDOS.SYS");
    push_catalogue_name(&mut v, "COMMAND.COM");
    push_catalogue_name(&mut v, "AUTOEXEC.BAT");
    push_catalogue_name(&mut v, "CONFIG.SYS");
    push_catalogue_name(&mut v, "DBLSPACE.BIN");
    push_catalogue_name(&mut v, "DRVSPACE.BIN");
    push_catalogue_name(&mut v, "APPEND.EXE");
    push_catalogue_name(&mut v, "ATTRIB.EXE");
    push_catalogue_name(&mut v, "CHKDSK.EXE");
    push_catalogue_name(&mut v, "CHOICE.COM");
    push_catalogue_name(&mut v, "DEBUG.EXE");
    push_catalogue_name(&mut v, "DEFRAG.EXE");
    push_catalogue_name(&mut v, "DELTREE.EXE");
    push_catalogue_name(&mut v, "DISKCOMP.COM");
    push_catalogue_name(&mut v, "DISKCOPY.COM");
    push_catalogue_name(&mut v, "DOSKEY.COM");
    push_catalogue_name(&mut v, "DOSSHELL.EXE");
    push_catalogue_name(&mut v, "EDIT.COM");
    push_catalogue_name(&mut v, "EDLIN.EXE");
    push_catalogue_name(&mut v, "EMM386.EXE");
    push_catalogue_name(&mut v, "EXPAND.EXE");
    push_catalogue_name(&mut v, "FASTHELP.EXE");
    push_catalogue_name(&mut v, "FASTOPEN.EXE");
    push_catalogue_name(&mut v, "FC.EXE");
    push_catalogue_name(&mut v, "FDISK.EXE");
    push_catalogue_name(&mut v, "FIND.EXE");
    push_catalogue_name(&mut v, "FORMAT.COM");
    push_catalogue_name(&mut v, "GRAFTABL.COM");
    push_catalogue_name(&mut v, "GRAPHICS.COM");
    push_catalogue_name(&mut v, "HELP.COM");
    push_catalogue_name(&mut v, "INTERLNK.EXE");
    push_catalogue_name(&mut v, "INTERSVR.EXE");
    push_catalogue_name(&mut v, "KEYB.COM");
    push_catalogue_name(&mut v, "LABEL.EXE");
    push_catalogue_name(&mut v, "LOADFIX.COM");
    push_catalogue_name(&mut v, "MEM.EXE");
    push_catalogue_name(&mut v, "MEMMAKER.EXE");
    push_catalogue_name(&mut v, "MODE.COM");
    push_catalogue_name(&mut v, "MORE.COM");
    push_catalogue_name(&mut v, "MOVE.EXE");
    push_catalogue_name(&mut v, "MSAV.EXE");
    push_catalogue_name(&mut v, "MSBACKUP.EXE");
    push_catalogue_name(&mut v, "MSD.EXE");
    push_catalogue_name(&mut v, "NLSFUNC.EXE");
    push_catalogue_name(&mut v, "POWER.EXE");
    push_catalogue_name(&mut v, "PRINT.EXE");
    push_catalogue_name(&mut v, "QBASIC.EXE");
    push_catalogue_name(&mut v, "REPLACE.EXE");
    push_catalogue_name(&mut v, "RESTORE.EXE");
    push_catalogue_name(&mut v, "SCANDISK.EXE");
    push_catalogue_name(&mut v, "SETVER.EXE");
    push_catalogue_name(&mut v, "SHARE.EXE");
    push_catalogue_name(&mut v, "SIZER.EXE");
    push_catalogue_name(&mut v, "SMARTDRV.EXE");
    push_catalogue_name(&mut v, "SORT.EXE");
    push_catalogue_name(&mut v, "SUBST.EXE");
    push_catalogue_name(&mut v, "SYS.COM");
    push_catalogue_name(&mut v, "TREE.COM");
    push_catalogue_name(&mut v, "UNDELETE.EXE");
    push_catalogue_name(&mut v, "UNFORMAT.COM");
    push_catalogue_name(&mut v, "VSAFE.COM");
    push_catalogue_name(&mut v, "XCOPY.EXE");
    push_catalogue_name(&mut v, "HIMEM.SYS");
    push_catalogue_name(&mut v, "EMM386.EXE");
    push_catalogue_name(&mut v, "RAMDRIVE.SYS");
    push_catalogue_name(&mut v, "ANSI.SYS");
    push_catalogue_name(&mut v, "COUNTRY.SYS");
    push_catalogue_name(&mut v, "DISPLAY.SYS");
    push_catalogue_name(&mut v, "DRIVER.SYS");
    push_catalogue_name(&mut v, "KEYBOARD.SYS");
    push_catalogue_name(&mut v, "PRINTER.SYS");
    push_catalogue_name(&mut v, "MOUSE.COM");
    push_catalogue_name(&mut v, "MOUSE.SYS");
    push_catalogue_name(&mut v, "SETVER.EXE");
    push_catalogue_name(&mut v, "SMARTDRV.EXE");
    push_catalogue_name(&mut v, "AUTOEXEC.UMB");
    push_catalogue_name(&mut v, "AUTOEXEC.DOS");
    push_catalogue_name(&mut v, "CONFIG.UMB");
    push_catalogue_name(&mut v, "CONFIG.DOS");
    push_catalogue_name(&mut v, "NETWORKS.TXT");
    push_catalogue_name(&mut v, "README.TXT");
    push_catalogue_name(&mut v, "APPS.HLP");
    push_catalogue_name(&mut v, "MSBACKUP.INI");
    push_catalogue_name(&mut v, "MSBACKUP.CFG");
    push_catalogue_name(&mut v, "MSAV.INI");
    push_catalogue_name(&mut v, "DEFRAG.INI");
    push_catalogue_name(&mut v, "QBASIC.INI");
    push_catalogue_name(&mut v, "WP\\WP.EXE");
    push_catalogue_name(&mut v, "WP\\WP.FIL");
    push_catalogue_name(&mut v, "WP\\STANDARD.PRS");
    push_catalogue_name(&mut v, "WP\\MACROS.WPM");
    push_catalogue_name(&mut v, "WP\\STYLES.STY");
    push_catalogue_name(&mut v, "WP\\GRAPHCNV.EXE");
    push_catalogue_name(&mut v, "WP\\WPINFO.TXT");
    push_catalogue_name(&mut v, "123\\123.EXE");
    push_catalogue_name(&mut v, "123\\123.CNF");
    push_catalogue_name(&mut v, "123\\WYSIWYG.CNF");
    push_catalogue_name(&mut v, "123\\DEFAULT.FNT");
    push_catalogue_name(&mut v, "123\\SAMPLES\\SALES.WK1");
    push_catalogue_name(&mut v, "123\\SAMPLES\\FINANCE.WK1");
    push_catalogue_name(&mut v, "DBASE\\DBASE.EXE");
    push_catalogue_name(&mut v, "DBASE\\DBASE.RES");
    push_catalogue_name(&mut v, "DBASE\\SQLHOME\\SQL.EXE");
    push_catalogue_name(&mut v, "DBASE\\SAMPLES\\CLIENTS.DBF");
    push_catalogue_name(&mut v, "DBASE\\SAMPLES\\ORDERS.DBF");
    push_catalogue_name(&mut v, "DBASE\\SAMPLES\\ITEMS.NDX");
    push_catalogue_name(&mut v, "DBASE\\TUTORIAL\\TUTOR.DBF");
    push_catalogue_name(&mut v, "NORTON\\NU.EXE");
    push_catalogue_name(&mut v, "NORTON\\SPEEDISK.EXE");
    push_catalogue_name(&mut v, "NORTON\\DISKDOC.EXE");
    push_catalogue_name(&mut v, "NORTON\\UNERASE.EXE");
    push_catalogue_name(&mut v, "NORTON\\SYSINFO.EXE");
    push_catalogue_name(&mut v, "DOOM\\DOOM.EXE");
    push_catalogue_name(&mut v, "DOOM\\DOOM.WAD");
    push_catalogue_name(&mut v, "DOOM\\SETUP.EXE");
    push_catalogue_name(&mut v, "DOOM\\DEHACKED.EXE");
    push_catalogue_name(&mut v, "DOOM\\DM.WAD");
    push_catalogue_name(&mut v, "DOOM\\DOOM2.WAD");
    push_catalogue_name(&mut v, "DOOM\\TNT.WAD");
    push_catalogue_name(&mut v, "DOOM\\PLUTONIA.WAD");
    push_catalogue_name(&mut v, "DUKE3D\\DUKE3D.EXE");
    push_catalogue_name(&mut v, "DUKE3D\\DUKE.RTS");
    push_catalogue_name(&mut v, "DUKE3D\\SETUP.EXE");
    push_catalogue_name(&mut v, "DUKE3D\\USER.CON");
    push_catalogue_name(&mut v, "DUKE3D\\GAME.CON");
    push_catalogue_name(&mut v, "DUKE3D\\DUKEMATCH.CON");
    push_catalogue_name(&mut v, "WOLF3D\\WOLF3D.EXE");
    push_catalogue_name(&mut v, "WOLF3D\\VGAHEAD.V3D");
    push_catalogue_name(&mut v, "WOLF3D\\VGAGRAPH.V3D");
    push_catalogue_name(&mut v, "WOLF3D\\VSWAP.V3D");
    push_catalogue_name(&mut v, "WOLF3D\\AUDIO.W3D");
    push_catalogue_name(&mut v, "WOLF3D\\MAPHEAD.W3D");
    push_catalogue_name(&mut v, "CIV\\CIV.EXE");
    push_catalogue_name(&mut v, "CIV\\MAP.GIF");
    push_catalogue_name(&mut v, "CIV\\CIV.SVE");
    push_catalogue_name(&mut v, "CIV\\DIPLOMAT.TXT");
    push_catalogue_name(&mut v, "CIV\\INTRO.EXE");
    push_catalogue_name(&mut v, "MONKEY\\MONKEY.EXE");
    push_catalogue_name(&mut v, "MONKEY\\000.LFL");
    push_catalogue_name(&mut v, "MONKEY\\901.LFL");
    push_catalogue_name(&mut v, "MONKEY\\DISK01.LEC");
    push_catalogue_name(&mut v, "WINDOWS\\WIN.COM");
    push_catalogue_name(&mut v, "WINDOWS\\SYSTEM.INI");
    push_catalogue_name(&mut v, "WINDOWS\\WIN.INI");
    push_catalogue_name(&mut v, "WINDOWS\\PROGMAN.EXE");
    push_catalogue_name(&mut v, "WINDOWS\\PROGMAN.INI");
    push_catalogue_name(&mut v, "WINDOWS\\SYSTEM\\GDI.EXE");
    push_catalogue_name(&mut v, "WINDOWS\\SYSTEM\\USER.EXE");
    push_catalogue_name(&mut v, "WINDOWS\\SYSTEM\\KRNL386.EXE");
    push_catalogue_name(&mut v, "WINDOWS\\SYSTEM\\VGA.DRV");
    push_catalogue_name(&mut v, "WINDOWS\\SYSTEM\\COMM.DRV");
    push_catalogue_name(&mut v, "WINDOWS\\SYSTEM\\MMSOUND.DRV");
    push_catalogue_name(&mut v, "WINDOWS\\SYSTEM\\SHELL.DLL");
    push_catalogue_name(&mut v, "WINDOWS\\SYSTEM\\WINFILE.EXE");
    push_catalogue_name(&mut v, "WINDOWS\\SOL.EXE");
    push_catalogue_name(&mut v, "WINDOWS\\WINMINE.EXE");
    push_catalogue_name(&mut v, "WINDOWS\\CLOCK.EXE");
    push_catalogue_name(&mut v, "WINDOWS\\WRITE.EXE");
    push_catalogue_name(&mut v, "WINDOWS\\NOTEPAD.EXE");
    push_catalogue_name(&mut v, "WINDOWS\\REGEDIT.EXE");
    push_catalogue_name(&mut v, "WINDOWS\\CONTROL.EXE");
    push_catalogue_name(&mut v, "WINDOWS\\CALC.EXE");
    push_catalogue_name(&mut v, "WINDOWS\\CARDFILE.EXE");
    v
}

/// Provides unique, random filenames from the DOS era.
pub struct DosFileProvider {
    remaining_files: Vec<String>,
}

impl DosFileProvider {
    /// The filenames not yet handed out, next one last.
    pub closed spec fn spec_remaining(&self) -> Seq<String> {
        self.remaining_files@
    }

    /// Every name still held comes from the fixed catalogue.
    pub open spec fn wf(&self) -> bool {
        forall|k: int|
            0 <= k < self.spec_remaining().len() ==> spec_catalogue().contains(
                (#[trigger] self.spec_remaining()[k])@,
            )
    }

    /// Create a provider holding the whole catalogue in a random order.
    pub fn new() -> (r: Self)
        ensures
            r.wf(),
            r.spec_remaining().len() == spec_catalogue().len(),
    {
        let mut remaining_files = catalogue();
        let ghost before = remaining_files@;
        shuffle_vec(&mut remaining_files);
        proof {
            broadcast use vstd::seq_lib::group_to_multiset_ensures;

            assert forall|k: int|
                0 <= k < remaining_files@.len() implies spec_catalogue().contains(
                (#[trigger] remaining_files@[k])@,
            ) by {
                assert(remaining_files@.contains(remaining_files@[k]));
                assert(remaining_files@.to_multiset().count(remaining_files@[k]) > 0);
                assert(before.to_multiset().count(remaining_files@[k]) > 0);
                assert(before.contains(remaining_files@[k]));
                let b = choose|b: int| 0 <= b < before.len() && before[b] == remaining_files@[k];
                assert(before[b]@ == spec_catalogue()[b]);
            }
        }
        DosFileProvider { remaining_files }
    }

    /// Hand out the next filename, or None once all have been used; any
    /// name handed out comes from the fixed catalogue.
    pub fn get_random_filename(&mut self) -> (r: Option<String>)
        ensures
            old(self).wf() ==> final(self).wf(),
            match r {
                Some(s) => old(self).spec_remaining().len() > 0 && s == old(
                    self,
                ).spec_remaining().last() && final(self).spec_remaining() == old(
                    self,
                ).spec_remaining().drop_last() && (old(self).wf() ==> spec_catalogue().contains(
                    s@,
                )),
                None => old(self).spec_remaining().len() == 0 && final(self).spec_remaining()
                    == old(self).spec_remaining(),
            },
    {
        self.remaining_files.pop()
    }

    /// How many filenames are still available.
    pub fn remaining_count(&self) -> (r: usize)
        ensures
            r == self.spec_remaining().len(),
    {
        self.remaining_files.len()
    }
}

} // verus!
