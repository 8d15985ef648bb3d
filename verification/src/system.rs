//! What the operating system offers for running Windows programs: Wine,
//! 32-bit support and Vulkan drivers, and the commands that install what
//! is missing.

use vstd::prelude::*;
use crate::text::{chars_contain, chars_of, contains_seq, join, join_strings, views};

verus! {

/// Which of the system's requirements are present.
#[derive(Debug, Clone, Copy, PartialEq, Eq, Structural)]
pub struct SystemReport {
    pub wine: bool,
    pub i386_arch: bool,
    pub vulkan_tools: bool,
    pub mesa_vulkan: bool,
}

impl SystemReport {
    /// Whether every requirement is present.
    pub fn all_ok(&self) -> (r: bool)
        ensures
            r == (self.wine && self.i386_arch && self.vulkan_tools && self.mesa_vulkan),
    {
        self.wine && self.i386_arch && self.vulkan_tools && self.mesa_vulkan
    }
}

/// The packages that a report says are missing, in install order.
pub open spec fn missing_packages(report: SystemReport) -> Seq<Seq<char>> {
    (if !report.wine { seq!["wine"@, "wine32"@, "wine64"@] } else { Seq::empty() })
        + (if !report.vulkan_tools { seq!["vulkan-tools"@] } else { Seq::empty() })
        + (if !report.mesa_vulkan { seq!["mesa-vulkan-drivers"@] } else { Seq::empty() })
}

/// The commands that make the system ready: the i386 architecture first,
/// then one package index update and one install of every missing package.
pub open spec fn setup_commands(report: SystemReport) -> Seq<Seq<char>> {
    let pkgs = missing_packages(report);
    (if !report.i386_arch { seq!["dpkg --add-architecture i386"@] } else { Seq::empty() })
        + (if pkgs.len() > 0 {
        seq!["apt update"@, "apt install -y "@ + join(pkgs, " "@)]
    } else {
        Seq::empty()
    })
}

/// The commands that install what `report` says is missing, in the order
/// in which they must run (i386 before the packages that need it).
pub fn missing_setup_commands(report: &SystemReport) -> (r: Vec<String>)
    ensures
        views(r@) == setup_commands(*report),
{
    let mut cmds: Vec<String> = Vec::new();
    if !report.i386_arch {
        cmds.push(String::from_str("dpkg --add-architecture i386"));
    }
    let mut pkgs: Vec<String> = Vec::new();
    if !report.wine {
        pkgs.push(String::from_str("wine"));
        pkgs.push(String::from_str("wine32"));
        pkgs.push(String::from_str("wine64"));
    }
    if !report.vulkan_tools {
        pkgs.push(String::from_str("vulkan-tools"));
    }
    if !report.mesa_vulkan {
        pkgs.push(String::from_str("mesa-vulkan-drivers"));
    }
    assert(views(pkgs@) =~= missing_packages(*report));
    if pkgs.len() > 0 {
        cmds.push(String::from_str("apt update"));
        let mut install = String::from_str("apt install -y ");
        let list = join_strings(pkgs.as_slice(), " ");
        install.append(list.as_str());
        cmds.push(install);
    }
    assert(views(cmds@) =~= setup_commands(*report));
    cmds
}

/// Whether dpkg's list of foreign architectures names i386.
pub fn i386_enabled(foreign_architectures: &str) -> (r: bool)
    ensures
        r == contains_seq(foreign_architectures@, "i386"@),
{
    let hay = chars_of(foreign_architectures);
    let needle = chars_of("i386");
    chars_contain(&hay, &needle)
}

/// Whether one of the installed Vulkan driver manifests is Mesa's: a file
/// name that contains `mesa`.
pub fn mesa_vulkan_present(driver_file_names: &[String]) -> (r: bool)
    ensures
        r == exists|k: int|
            0 <= k < driver_file_names@.len() && contains_seq(
                #[trigger] driver_file_names@[k]@,
                "mesa"@,
            ),
{
    let needle = chars_of("mesa");
    let mut i: usize = 0;
    while i < driver_file_names.len()
        invariant
            needle@ == "mesa"@,
            i <= driver_file_names.len(),
            forall|k: int|
                0 <= k < i ==> !contains_seq(#[trigger] driver_file_names@[k]@, "mesa"@),
        decreases driver_file_names.len() - i,
    {
        let hay = chars_of(driver_file_names[i].as_str());
        if chars_contain(&hay, &needle) {
            return true;
        }
        i = i + 1;
    }
    false
}

/// What the probes of the system found: whether `wine` and `vulkaninfo`
/// are on the path, what dpkg lists as foreign architectures (`None` when
/// dpkg could not be run), and the file names in the folder of Vulkan
/// driver manifests (`None` when that folder cannot be read).
pub struct SystemProbes {
    pub wine_found: bool,
    pub foreign_architectures: Option<String>,
    pub vulkaninfo_found: bool,
    pub vulkan_driver_files: Option<Vec<String>>,
}

/// Whether some driver manifest name contains `mesa`.
pub open spec fn names_mesa(files: Seq<String>) -> bool {
    exists|k: int| 0 <= k < files.len() && contains_seq(#[trigger] files[k]@, "mesa"@)
}

/// The report that the probes of the system give: Wine and vulkan-tools
/// when their programs are on the path, i386 when dpkg lists it, and Mesa's
/// Vulkan driver when one of the manifests is Mesa's. A probe that could
/// not run counts as a missing requirement.
pub fn scan_system(probes: &SystemProbes) -> (r: SystemReport)
    ensures
        r.wine == probes.wine_found,
        r.i386_arch == (match probes.foreign_architectures {
            Some(s) => contains_seq(s@, "i386"@),
            None => false,
        }),
        r.vulkan_tools == probes.vulkaninfo_found,
        r.mesa_vulkan == (match probes.vulkan_driver_files {
            Some(v) => names_mesa(v@),
            None => false,
        }),
{
    let i386_arch = match &probes.foreign_architectures {
        Some(s) => i386_enabled(s.as_str()),
        None => false,
    };
    let mesa_vulkan = match &probes.vulkan_driver_files {
        Some(v) => mesa_vulkan_present(v.as_slice()),
        None => false,
    };
    SystemReport {
        wine: probes.wine_found,
        i386_arch,
        vulkan_tools: probes.vulkaninfo_found,
        mesa_vulkan,
    }
}

/// The single shell script that runs all setup commands, each only if the
/// one before succeeded; `None` when there is nothing to install.
pub fn setup_script(commands: &[String]) -> (r: Option<String>)
    ensures
        commands@.len() == 0 <==> r is None,
        r matches Some(s) ==> s@ == join(views(commands@), " && "@),
{
    if commands.len() == 0 {
        None
    } else {
        Some(join_strings(commands, " && "))
    }
}

/// The message for a system setup that had nothing to do.
pub fn setup_nothing_to_do() -> (r: String)
    ensures
        r@ == "Nada que instalar, el sistema ya está listo"@,
{
    String::from_str("Nada que instalar, el sistema ya está listo")
}

/// What a finished setup run reports: a confirmation when the privileged
/// shell exited successfully, else its error output.
pub fn setup_outcome(success: bool, stderr: &str) -> (r: Result<String, String>)
    ensures
        success ==> (r matches Ok(m) && m@ == "Configuración del sistema completada"@),
        !success ==> (r matches Err(e) && e@ == "Falló la instalación: "@ + stderr@),
{
    if success {
        Ok(String::from_str("Configuración del sistema completada"))
    } else {
        let mut e = String::from_str("Falló la instalación: ");
        e.append(stderr);
        Err(e)
    }
}

/// Each missing requirement brings its own packages into the install
/// command, whatever the other requirements are: Wine brings `wine`,
/// `wine32` and `wine64`, vulkan-tools brings `vulkan-tools`, Mesa's
/// Vulkan driver brings `mesa-vulkan-drivers`; a present one brings none.
pub proof fn law_missing_packages_follow_report(r: SystemReport)
    ensures
        missing_packages(r).contains("wine"@) <==> !r.wine,
        missing_packages(r).contains("wine32"@) <==> !r.wine,
        missing_packages(r).contains("wine64"@) <==> !r.wine,
        missing_packages(r).contains("vulkan-tools"@) <==> !r.vulkan_tools,
        missing_packages(r).contains("mesa-vulkan-drivers"@) <==> !r.mesa_vulkan,
{
    reveal_strlit("wine");
    reveal_strlit("wine32");
    reveal_strlit("wine64");
    reveal_strlit("vulkan-tools");
    reveal_strlit("mesa-vulkan-drivers");
    let w: Seq<Seq<char>> = if !r.wine { seq!["wine"@, "wine32"@, "wine64"@] } else { Seq::empty() };
    let v: Seq<Seq<char>> = if !r.vulkan_tools { seq!["vulkan-tools"@] } else { Seq::empty() };
    let m: Seq<Seq<char>> = if !r.mesa_vulkan { seq!["mesa-vulkan-drivers"@] } else { Seq::empty() };
    let all = missing_packages(r);
    assert(all =~= w + v + m);
    assert forall|x: Seq<char>| all.contains(x) <==> (w.contains(x) || v.contains(x) || m.contains(x)) by {
        if all.contains(x) {
            let k = choose|k: int| 0 <= k < all.len() && all[k] == x;
            if k < w.len() {
                assert(w[k] == x);
            } else if k < w.len() + v.len() {
                assert(v[k - w.len()] == x);
            } else {
                assert(m[k - w.len() - v.len()] == x);
            }
        }
        if w.contains(x) {
            let k = choose|k: int| 0 <= k < w.len() && w[k] == x;
            assert(all[k] == x);
        }
        if v.contains(x) {
            let k = choose|k: int| 0 <= k < v.len() && v[k] == x;
            assert(all[w.len() + k] == x);
        }
        if m.contains(x) {
            let k = choose|k: int| 0 <= k < m.len() && m[k] == x;
            assert(all[w.len() + v.len() + k] == x);
        }
    }
    if !r.wine {
        assert(w[0] == "wine"@ && w[1] == "wine32"@ && w[2] == "wine64"@);
    }
    if !r.vulkan_tools {
        assert(v[0] == "vulkan-tools"@);
    }
    if !r.mesa_vulkan {
        assert(m[0] == "mesa-vulkan-drivers"@);
    }
    assert("wine"@.len() == 4 && "wine32"@.len() == 6 && "wine64"@.len() == 6);
    assert("vulkan-tools"@.len() == 12 && "mesa-vulkan-drivers"@.len() == 19);
    assert forall|k: int| 0 <= k < w.len() implies w[k].len() == 4 || w[k].len() == 6 by {}
    assert forall|k: int| 0 <= k < v.len() implies v[k].len() == 12 by {}
    assert forall|k: int| 0 <= k < m.len() implies m[k].len() == 19 by {}
    lemma_absent_by_len(v, "wine"@);
    lemma_absent_by_len(m, "wine"@);
    lemma_absent_by_len(v, "wine32"@);
    lemma_absent_by_len(m, "wine32"@);
    lemma_absent_by_len(v, "wine64"@);
    lemma_absent_by_len(m, "wine64"@);
    lemma_absent_by_len(w, "vulkan-tools"@);
    lemma_absent_by_len(m, "vulkan-tools"@);
    lemma_absent_by_len(w, "mesa-vulkan-drivers"@);
    lemma_absent_by_len(v, "mesa-vulkan-drivers"@);
}

/// A sequence whose elements all differ in length from `x` does not hold it.
proof fn lemma_absent_by_len(s: Seq<Seq<char>>, x: Seq<char>)
    requires
        forall|k: int| 0 <= k < s.len() ==> s[k].len() != x.len(),
    ensures
        !s.contains(x),
{
    if s.contains(x) {
        let k = choose|k: int| 0 <= k < s.len() && s[k] == x;
        assert(s[k].len() == x.len());
    }
}

/// The setup commands: enabling i386 exactly when it is missing, and it
/// comes first; an index update and one install command exactly when a
/// package is missing, the install naming every missing package; nothing
/// at all when every requirement is present.
pub proof fn law_setup_commands_follow_report(r: SystemReport)
    ensures
        setup_commands(r).contains("dpkg --add-architecture i386"@) <==> !r.i386_arch,
        !r.i386_arch ==> setup_commands(r)[0] == "dpkg --add-architecture i386"@,
        setup_commands(r).contains("apt update"@) <==> (!r.wine || !r.vulkan_tools || !r.mesa_vulkan),
        (!r.wine || !r.vulkan_tools || !r.mesa_vulkan) ==> setup_commands(r).last() == "apt install -y "@ + join(
            missing_packages(r),
            " "@,
        ),
        setup_commands(r).len() == 0 <==> (r.wine && r.i386_arch && r.vulkan_tools && r.mesa_vulkan),
{
    reveal_strlit("dpkg --add-architecture i386");
    reveal_strlit("apt update");
    reveal_strlit("apt install -y ");
    law_missing_packages_follow_report(r);
    let pkgs = missing_packages(r);
    if !r.wine {
        assert(pkgs.contains("wine"@));
    }
    if !r.vulkan_tools {
        assert(pkgs.contains("vulkan-tools"@));
    }
    if !r.mesa_vulkan {
        assert(pkgs.contains("mesa-vulkan-drivers"@));
    }
    if r.wine && r.vulkan_tools && r.mesa_vulkan {
        assert(pkgs.len() == 0);
    }
    let a: Seq<Seq<char>> = if !r.i386_arch { seq!["dpkg --add-architecture i386"@] } else { Seq::empty() };
    let b: Seq<Seq<char>> = if pkgs.len() > 0 {
        seq!["apt update"@, "apt install -y "@ + join(pkgs, " "@)]
    } else {
        Seq::empty()
    };
    let all = setup_commands(r);
    assert(all =~= a + b);
    let install = "apt install -y "@ + join(pkgs, " "@);
    assert(install.len() >= 15);
    assert(install[0] == 'a' && install[4] == 'i');
    assert forall|x: Seq<char>| all.contains(x) <==> (a.contains(x) || b.contains(x)) by {
        if all.contains(x) {
            let k = choose|k: int| 0 <= k < all.len() && all[k] == x;
            if k < a.len() {
                assert(a[k] == x);
            } else {
                assert(b[k - a.len()] == x);
            }
        }
        if a.contains(x) {
            let k = choose|k: int| 0 <= k < a.len() && a[k] == x;
            assert(all[k] == x);
        }
        if b.contains(x) {
            let k = choose|k: int| 0 <= k < b.len() && b[k] == x;
            assert(all[a.len() + k] == x);
        }
    }
    if !r.i386_arch {
        assert(all[0] == a[0]);
    }
    assert("dpkg --add-architecture i386"@.len() == 28 && "apt update"@.len() == 10);
    assert("dpkg --add-architecture i386"@[0] == 'd');
    if pkgs.len() > 0 {
        assert(b[0] == "apt update"@);
        assert(b.contains("apt update"@));
        assert(b[1] != "dpkg --add-architecture i386"@);
        assert(b[0] != "dpkg --add-architecture i386"@);
        assert(!b.contains("dpkg --add-architecture i386"@));
    }
    assert forall|k: int| 0 <= k < a.len() implies a[k].len() == 28 by {}
    lemma_absent_by_len(a, "apt update"@);
}

} // verus!

