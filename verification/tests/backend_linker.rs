use mun_core::backend::{
    create_with_target, AnyLinker, Config, Ld64Linker, LdLinker, Linker, LinkerError, LinkerFlavor,
    LldFlavor, MsvcLinker, OptimizationLevel, TargetSpec,
};
use mun_core::db::CompilerDatabase;

fn linux_target() -> TargetSpec {
    TargetSpec {
        triple: b"x86_64-unknown-linux-gnu".to_vec(),
        cpu: b"generic".to_vec(),
        features: b"".to_vec(),
        arch: b"x86_64".to_vec(),
        linker_flavor: LinkerFlavor::Ld,
    }
}

fn config_with(opt: OptimizationLevel, flavor: LinkerFlavor) -> Config {
    let mut t = linux_target();
    t.linker_flavor = flavor;
    Config { target: t, optimization_lvl: opt }
}

#[test]
fn backend_handle_is_stable_while_config_is() {
    let cfg = config_with(OptimizationLevel::Standard, LinkerFlavor::Ld);
    let mut db = CompilerDatabase::new(&cfg);
    let h1 = db.target_machine();
    let h2 = db.target_machine();
    assert_eq!(h1, h2);
}

#[test]
fn backend_handle_is_rebuilt_on_config_change() {
    let cfg = config_with(OptimizationLevel::Standard, LinkerFlavor::Ld);
    let mut db = CompilerDatabase::new(&cfg);
    let h1 = db.target_machine();
    let cfg2 = config_with(OptimizationLevel::Aggressive, LinkerFlavor::Ld);
    db.set_config(&cfg2);
    let h2 = db.target_machine();
    assert_ne!(h1, h2);
    let h3 = db.target_machine();
    assert_eq!(h2, h3);
}

#[test]
fn ld_linker_builds_shared_object_args() {
    let t = linux_target();
    let mut l = LdLinker::new(&t);
    l.add_object(&b"a.o".to_vec()).unwrap();
    l.add_object(&b"b.o".to_vec()).unwrap();
    l.build_shared_object(&b"out/libx.so".to_vec()).unwrap();
    let (flavor, args) = l.finalize();
    assert_eq!(flavor, LldFlavor::Elf);
    let expect: Vec<&[u8]> = vec![b"a.o", b"b.o", b"--shared", b"-o", b"out/libx.so"];
    assert_eq!(args.len(), expect.len());
    for (got, want) in args.iter().zip(expect.iter()) {
        assert_eq!(got.as_slice(), *want);
    }
}

#[test]
fn ld64_linker_builds_dylib_args_with_sdk() {
    let mut t = linux_target();
    t.arch = b"arm64".to_vec();
    t.linker_flavor = LinkerFlavor::Ld64;
    let mut l = Ld64Linker::new(&t, Ok(b"/sdk".to_vec()));
    l.add_object(&b"a.o".to_vec()).unwrap();
    l.build_shared_object(&b"dir/libx.dylib".to_vec()).unwrap();
    let (flavor, args) = l.finalize();
    assert_eq!(flavor, LldFlavor::MachO);
    let expect: Vec<&[u8]> = vec![
        b"-arch arm64",
        b"a.o",
        b"-dylib",
        b"-L/sdk/usr/lib",
        b"-lsystem",
        b"-o",
        b"dir/libx.dylib",
        b"-install_name",
        b"libx.dylib",
    ];
    assert_eq!(args.len(), expect.len());
    for (got, want) in args.iter().zip(expect.iter()) {
        assert_eq!(got.as_slice(), *want);
    }
}

#[test]
fn ld64_linker_without_sdk_reports_missing_platform() {
    let mut t = linux_target();
    t.linker_flavor = LinkerFlavor::Ld64;
    let mut l = Ld64Linker::new(&t, Err(b"no xcrun on this host".to_vec()));
    let r = l.build_shared_object(&b"libx.dylib".to_vec());
    match r {
        Err(LinkerError::PlatformSdkMissing(m)) => {
            assert_eq!(m, b"no xcrun on this host".to_vec());
        }
        _ => panic!("expected the platform sdk error"),
    }
    // the discovery message reaches the rendered error
    let e = LinkerError::PlatformSdkMissing(b"no xcrun on this host".to_vec());
    assert_eq!(
        e.message(),
        b"could not find platform sdk: no xcrun on this host".to_vec()
    );
}

#[test]
fn non_utf8_paths_are_rejected_with_path_error() {
    let t = linux_target();
    let bad = b"out/\xfflib.so".to_vec();
    let mut l = LdLinker::new(&t);
    assert!(matches!(l.add_object(&bad), Err(LinkerError::PathError(_))));
    assert!(matches!(
        l.build_shared_object(&bad),
        Err(LinkerError::PathError(p)) if p == bad
    ));
    let (_, args) = l.finalize();
    assert_eq!(args.len(), 0);

    let mut t64 = linux_target();
    t64.linker_flavor = LinkerFlavor::Ld64;
    let mut l64 = Ld64Linker::new(&t64, Ok(b"/sdk".to_vec()));
    assert!(matches!(
        l64.build_shared_object(&bad),
        Err(LinkerError::PathError(_))
    ));

    let mut tm = linux_target();
    tm.linker_flavor = LinkerFlavor::Msvc;
    let mut lm = MsvcLinker::new(&tm);
    assert!(matches!(lm.add_object(&bad), Err(LinkerError::PathError(_))));
    assert!(matches!(
        lm.build_shared_object(&bad),
        Err(LinkerError::PathError(_))
    ));

    // a valid multi-byte UTF-8 path is accepted
    let ok_path = "out/libré.so".as_bytes().to_vec();
    let mut l2 = LdLinker::new(&t);
    assert!(l2.add_object(&ok_path).is_ok());
}

#[test]
fn msvc_linker_builds_dll_args() {
    let mut t = linux_target();
    t.linker_flavor = LinkerFlavor::Msvc;
    let mut l = MsvcLinker::new(&t);
    l.add_object(&b"a.obj".to_vec()).unwrap();
    l.build_shared_object(&b"x.dll".to_vec()).unwrap();
    let (flavor, args) = l.finalize();
    assert_eq!(flavor, LldFlavor::Coff);
    let expect: Vec<&[u8]> = vec![
        b"a.obj",
        b"/DLL",
        b"/NOENTRY",
        b"/EXPORT:get_info",
        b"/EXPORT:get_version",
        b"/EXPORT:set_allocator_handle",
        b"/IMPLIB:x.dll",
        b"/OUT:x.dll",
    ];
    assert_eq!(args.len(), expect.len());
    for (got, want) in args.iter().zip(expect.iter()) {
        assert_eq!(got.as_slice(), *want);
    }
}

#[test]
fn create_with_target_dispatches_on_flavor() {
    let mut t = linux_target();
    let no_sdk = || Err(b"not looked up".to_vec());
    assert!(matches!(create_with_target(&t, no_sdk()), AnyLinker::Ld(_)));
    t.linker_flavor = LinkerFlavor::Ld64;
    assert!(matches!(create_with_target(&t, no_sdk()), AnyLinker::Ld64(_)));
    t.linker_flavor = LinkerFlavor::Msvc;
    assert!(matches!(create_with_target(&t, no_sdk()), AnyLinker::Msvc(_)));
}

#[test]
fn linker_error_messages() {
    let e = LinkerError::LinkError(b"boom".to_vec());
    assert_eq!(e.message(), b"boom".to_vec());
    let e = LinkerError::PathError(b"bad\xff".to_vec());
    assert_eq!(
        e.message(),
        b"path contains invalid UTF-8 characters: bad\xff".to_vec()
    );
    let e = LinkerError::PlatformSdkMissing(b"no xcrun".to_vec());
    assert_eq!(e.message(), b"could not find platform sdk: no xcrun".to_vec());
}
