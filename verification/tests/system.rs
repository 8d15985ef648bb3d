use dalhin::system::{
    i386_enabled, mesa_vulkan_present, missing_setup_commands, scan_system, setup_nothing_to_do,
    setup_outcome, setup_script, SystemProbes, SystemReport,
};

fn report(wine: bool, i386_arch: bool, vulkan_tools: bool, mesa_vulkan: bool) -> SystemReport {
    SystemReport { wine, i386_arch, vulkan_tools, mesa_vulkan }
}

#[test]
fn all_ok_needs_everything() {
    assert!(report(true, true, true, true).all_ok());
    assert!(!report(true, true, true, false).all_ok());
    assert!(!report(false, true, true, true).all_ok());
}

#[test]
fn nothing_missing_gives_no_commands() {
    assert!(missing_setup_commands(&report(true, true, true, true)).is_empty());
}

#[test]
fn everything_missing() {
    assert_eq!(
        missing_setup_commands(&report(false, false, false, false)),
        vec![
            "dpkg --add-architecture i386".to_string(),
            "apt update".to_string(),
            "apt install -y wine wine32 wine64 vulkan-tools mesa-vulkan-drivers".to_string(),
        ]
    );
}

#[test]
fn only_i386_missing() {
    assert_eq!(missing_setup_commands(&report(true, false, true, true)), vec!["dpkg --add-architecture i386".to_string()]);
}

#[test]
fn only_mesa_missing() {
    assert_eq!(
        missing_setup_commands(&report(true, true, true, false)),
        vec!["apt update".to_string(), "apt install -y mesa-vulkan-drivers".to_string()]
    );
}

#[test]
fn foreign_architectures() {
    assert!(i386_enabled("i386\n"));
    assert!(i386_enabled("armhf\ni386\n"));
    assert!(!i386_enabled(""));
    assert!(!i386_enabled("amd64\n"));
}

#[test]
fn mesa_driver_files() {
    assert!(mesa_vulkan_present(&["intel_icd.x86_64.json".to_string(), "radeon_mesa.json".to_string()]));
    assert!(!mesa_vulkan_present(&["nvidia_icd.json".to_string()]));
    assert!(!mesa_vulkan_present(&[]));
}

#[test]
fn setup_script_joins_commands() {
    assert_eq!(setup_script(&[]), None);
    let cmds = missing_setup_commands(&report(true, false, true, false));
    assert_eq!(
        setup_script(&cmds),
        Some("dpkg --add-architecture i386 && apt update && apt install -y mesa-vulkan-drivers".to_string())
    );
}

#[test]
fn setup_outcomes() {
    assert_eq!(setup_outcome(true, "x"), Ok("Configuración del sistema completada".to_string()));
    assert_eq!(setup_outcome(false, "denied"), Err("Falló la instalación: denied".to_string()));
    assert_eq!(setup_nothing_to_do(), "Nada que instalar, el sistema ya está listo");
}

#[test]
fn probes_make_the_report() {
    let probes = SystemProbes {
        wine_found: true,
        foreign_architectures: Some("i386\n".to_string()),
        vulkaninfo_found: false,
        vulkan_driver_files: Some(vec!["intel_icd.x86_64.json".to_string(), "radeon_mesa_icd.json".to_string()]),
    };
    assert_eq!(scan_system(&probes), report(true, true, false, true));
    let failed = SystemProbes {
        wine_found: false,
        foreign_architectures: None,
        vulkaninfo_found: true,
        vulkan_driver_files: None,
    };
    assert_eq!(scan_system(&failed), report(false, false, true, false));
    let other = SystemProbes {
        wine_found: true,
        foreign_architectures: Some("armhf".to_string()),
        vulkaninfo_found: true,
        vulkan_driver_files: Some(vec!["nvidia_icd.json".to_string()]),
    };
    assert_eq!(scan_system(&other), report(true, false, true, false));
}
