use my_nas::access::{
    describe_folder_access, grants_content, next_access_step, AccessFacts, AccessLookup, AccessQuery, AccessStep,
    FolderAccess,
};
use my_nas::crew::{
    approve_plan, ban_plan, child_max_depth, create_crew_role_check, delete_walk_after_crew,
    delete_walk_after_owner_check, found, invite_plan, invite_precheck, invite_target, is_active_crew_owner,
    join_request_crew_check, join_request_plan, join_request_precheck, manageable_crews, new_crew_records,
    require_crew_role, settings_delta_fits, settings_plan, shifted_depth, webdav_crew_precheck, webdav_crew_ready,
    webdav_mounts, DeleteWalk, MembershipWrite, RoleCheck,
};
use my_nas::errors::NasError;
use my_nas::models::{Crew, CrewMembership, CrewVisibility, FolderMetadata, Role, User};

fn crew(id: &str, parent: Option<&str>, visibility: CrewVisibility, root: Option<&str>, max: i32) -> Crew {
    Crew {
        id: id.to_string(),
        name: format!("crew {id}"),
        parent_id: parent.map(|p| p.to_string()),
        depth: 1,
        visibility,
        max_sub_crew_depth: max,
        root_folder_id: root.map(|r| r.to_string()),
        created_at: "2024-01-01T00:00:00Z".to_string(),
    }
}

fn member(role: u8, status: u8) -> Option<CrewMembership> {
    Some(CrewMembership { user_id: 7, crew_id: "c1".to_string(), role, status })
}

fn folder(id: &str, crew_id: Option<&str>, parent: Option<&str>) -> FolderMetadata {
    FolderMetadata {
        id: id.to_string(),
        parent_id: parent.map(|p| p.to_string()),
        crew_id: crew_id.map(|c| c.to_string()),
        name: id.to_string(),
        created_at: String::new(),
        updated_at: String::new(),
    }
}

fn err_msg<T: std::fmt::Debug>(r: Result<T, NasError>) -> String {
    match r.unwrap_err() {
        NasError::BadRequest(m) | NasError::Forbidden(m) | NasError::Internal(m) => m,
        other => format!("{other:?}"),
    }
}

#[test]
fn roles_are_checked_on_active_members() {
    assert_eq!(err_msg(require_crew_role(&None, RoleCheck::AnyRole)), "Crew 멤버가 아닙니다.");
    assert_eq!(err_msg(require_crew_role(&member(0, 0), RoleCheck::AnyRole)), "활성 멤버만 수행할 수 있습니다.");
    assert_eq!(err_msg(require_crew_role(&member(0, 9), RoleCheck::AnyRole)), "알 수 없는 멤버 상태입니다.");
    assert_eq!(err_msg(require_crew_role(&member(9, 1), RoleCheck::AnyRole)), "알 수 없는 멤버 역할입니다.");
    assert_eq!(require_crew_role(&member(2, 1), RoleCheck::AnyRole).unwrap(), Role::Member);
    assert_eq!(err_msg(require_crew_role(&member(1, 1), RoleCheck::OwnerOnly)), "권한이 없습니다.");
    assert_eq!(require_crew_role(&member(1, 1), RoleCheck::ManageMembers).unwrap(), Role::Manager);
    assert_eq!(err_msg(require_crew_role(&member(1, 1), RoleCheck::ManageSettings)), "권한이 없습니다.");
    assert_eq!(err_msg(require_crew_role(&member(2, 1), RoleCheck::CreateSubCrew)), "권한이 없습니다.");
    assert_eq!(require_crew_role(&member(0, 1), RoleCheck::ManageSettings).unwrap(), Role::Owner);

    assert!(!is_active_crew_owner(&None).unwrap());
    assert!(is_active_crew_owner(&member(0, 1)).unwrap());
    assert!(!is_active_crew_owner(&member(0, 2)).unwrap());
    assert!(!is_active_crew_owner(&member(1, 1)).unwrap());
}

#[test]
fn webdav_mounts_of_owned_crews() {
    assert_eq!(err_msg(webdav_crew_precheck("global-root-uuid")), "글로벌 루트 Crew는 WebDAV 마운트 대상이 아닙니다.");
    assert!(webdav_crew_precheck("c1").is_ok());
    assert!(matches!(webdav_crew_ready(None), Err(NasError::DataNotFound)));
    assert_eq!(
        err_msg(webdav_crew_ready(Some(crew("c1", None, CrewVisibility::Public, None, 3)))),
        "Crew 루트 폴더가 설정되지 않았습니다."
    );
    assert_eq!(webdav_crew_ready(Some(crew("c1", None, CrewVisibility::Public, Some("r"), 3))).unwrap().id, "c1");

    let mounts = webdav_mounts(
        vec![crew("a", None, CrewVisibility::Public, Some("r"), 3), crew("b", None, CrewVisibility::Private, Some("s"), 3)],
        "https://nas.example/webdav//",
    );
    assert_eq!(mounts.len(), 2);
    assert_eq!(mounts[0].mount_path, "https://nas.example/webdav/a/");
    assert_eq!(mounts[1].crew_name, "crew b");
}

#[test]
fn creating_crews_and_their_depth_budget() {
    assert_eq!(create_crew_role_check("global-root-uuid"), RoleCheck::AnyRole);
    assert_eq!(create_crew_role_check("c1"), RoleCheck::CreateSubCrew);

    let parent = crew("p", None, CrewVisibility::Public, Some("r"), 3);
    assert_eq!(child_max_depth(&parent, None).unwrap(), 2);
    assert_eq!(child_max_depth(&parent, Some(1)).unwrap(), 1);
    assert_eq!(child_max_depth(&parent, Some(-4)).unwrap(), 0);
    assert_eq!(child_max_depth(&parent, Some(99)).unwrap(), 2);
    let spent = crew("p", None, CrewVisibility::Public, Some("r"), 0);
    assert_eq!(err_msg(child_max_depth(&spent, None)), "이 Crew는 더 이상 하위 Crew를 만들 수 없습니다.");

    let (root, child) = new_crew_records("p", &parent, "사진", CrewVisibility::Private, 2);
    assert_eq!(child.name, "사진");
    assert_eq!(child.parent_id.as_deref(), Some("p"));
    assert_eq!(child.depth, 2);
    assert_eq!(child.visibility, CrewVisibility::Private);
    assert_eq!(child.max_sub_crew_depth, 2);
    assert_eq!(child.root_folder_id.as_deref(), Some(root.id.as_str()));
    assert_eq!(root.crew_id.as_deref(), Some(child.id.as_str()));
    assert_eq!(root.parent_id, None);
    assert_eq!(root.name, "사진");
    assert_eq!(child.id.len(), 36);
    assert_ne!(child.id, root.id);
}

#[test]
fn settings_changes() {
    let c = crew("c1", None, CrewVisibility::Public, Some("r"), 3);
    let plan = settings_plan(&c, "c1", Some(5), Some(CrewVisibility::Private)).unwrap();
    assert_eq!((plan.new_max, plan.new_visibility, plan.delta), (5, CrewVisibility::Private, 2));
    let plan = settings_plan(&c, "c1", Some(-2), None).unwrap();
    assert_eq!((plan.new_max, plan.new_visibility, plan.delta), (0, CrewVisibility::Public, -3));

    let g = crew("global-root-uuid", None, CrewVisibility::Public, None, 10);
    assert_eq!(
        err_msg(settings_plan(&g, "global-root-uuid", None, Some(CrewVisibility::Private))),
        "글로벌 루트 Crew의 공개 범위는 변경할 수 없습니다."
    );
    let plan = settings_plan(&g, "global-root-uuid", Some(4), Some(CrewVisibility::Public)).unwrap();
    assert_eq!((plan.new_max, plan.delta), (4, -6));

    assert_eq!(shifted_depth(2, -3), 0);
    assert_eq!(shifted_depth(2, 3), 5);

    assert!(settings_delta_fits(&c, Some(i32::MAX)));
    let negative = crew("n", None, CrewVisibility::Public, None, i32::MIN);
    assert!(!settings_delta_fits(&negative, Some(5)));
    assert!(!settings_delta_fits(&negative, None));
    let below = crew("n", None, CrewVisibility::Public, None, -5);
    assert!(settings_delta_fits(&below, Some(3)));
}

#[test]
fn managed_crews_keep_their_role() {
    let rows = vec![(crew("a", None, CrewVisibility::Public, Some("r"), 3), 0u8), (crew("b", None, CrewVisibility::Private, None, 1), 1u8)];
    let out = manageable_crews(rows);
    assert_eq!(out.len(), 2);
    assert_eq!((out[0].id.as_str(), out[0].my_role), ("a", 0));
    assert_eq!((out[1].id.as_str(), out[1].my_role, out[1].max_sub_crew_depth), ("b", 1, 1));
    assert_eq!(out[1].visibility, CrewVisibility::Private);
}

#[test]
fn joining_inviting_approving_banning() {
    assert_eq!(err_msg(join_request_precheck("global-root-uuid")), "글로벌 루트 Crew는 가입 신청이 필요 없습니다.");
    assert!(matches!(join_request_crew_check(&None), Err(NasError::DataNotFound)));
    assert_eq!(
        err_msg(join_request_crew_check(&Some(crew("c", None, CrewVisibility::Private, None, 3)))),
        "비공개 Crew는 가입 신청할 수 없습니다. 초대를 받아야 합니다."
    );
    assert!(join_request_crew_check(&Some(crew("c", None, CrewVisibility::Public, None, 3))).is_ok());
    assert_eq!(join_request_plan(&None).unwrap(), MembershipWrite::Add(3, 0));
    assert_eq!(err_msg(join_request_plan(&member(3, 0))), "이미 신청했거나 멤버입니다.");

    assert_eq!(err_msg(invite_precheck("global-root-uuid")), "글로벌 루트 Crew에는 초대할 수 없습니다.");
    let public = crew("c", None, CrewVisibility::Public, None, 3);
    let private = crew("c", None, CrewVisibility::Private, None, 3);
    assert_eq!(err_msg(invite_plan(&public, Role::Guest, &None)), "공개 Crew 초대 시 Guest 역할은 사용할 수 없습니다.");
    assert_eq!(invite_plan(&private, Role::Guest, &None).unwrap(), MembershipWrite::Add(2, 2));
    assert_eq!(invite_plan(&public, Role::Manager, &member(3, 0)).unwrap(), MembershipWrite::Update(1, 2));
    assert_eq!(err_msg(invite_plan(&public, Role::Member, &member(2, 1))), "이미 활성 멤버입니다.");
    let bob = User { id: 42, username: "bob".into(), password_hash: String::new(), created_at: String::new() };
    assert_eq!(invite_target(&Some(bob)).unwrap(), 42);
    assert_eq!(err_msg(invite_target(&None)), "해당 아이디의 사용자를 찾을 수 없습니다.");

    assert!(matches!(approve_plan(&None), Err(NasError::DataNotFound)));
    assert_eq!(approve_plan(&member(3, 0)).unwrap(), (2, 1));
    assert_eq!(approve_plan(&member(1, 2)).unwrap(), (1, 1));
    assert_eq!(err_msg(approve_plan(&member(2, 1))), "승인할 수 없는 멤버 상태입니다.");
    assert_eq!(err_msg(approve_plan(&member(2, 7))), "알 수 없는 멤버 상태입니다.");

    assert!(matches!(ban_plan(Role::Owner, &None), Err(NasError::DataNotFound)));
    assert_eq!(err_msg(ban_plan(Role::Owner, &member(0, 1))), "Owner는 차단할 수 없습니다.");
    assert_eq!(err_msg(ban_plan(Role::Manager, &member(1, 1))), "Manager는 다른 Manager를 차단할 수 없습니다.");
    assert_eq!(ban_plan(Role::Owner, &member(1, 1)).unwrap(), (1, 3));
    assert_eq!(ban_plan(Role::Manager, &member(2, 1)).unwrap(), (2, 3));
}

#[test]
fn deleting_walks_up_to_an_owned_crew() {
    assert!(matches!(delete_walk_after_owner_check("c2", &member(0, 1)), DeleteWalk::Done(Ok(()))));
    assert!(matches!(delete_walk_after_owner_check("c2", &member(2, 1)), DeleteWalk::LoadCrew(c) if c == "c2"));
    assert!(matches!(delete_walk_after_owner_check("c2", &member(0, 9)), DeleteWalk::Done(Err(NasError::Internal(_)))));
    let child = crew("c2", Some("c1"), CrewVisibility::Public, None, 1);
    assert!(matches!(delete_walk_after_crew(&Some(child)), DeleteWalk::CheckOwner(p) if p == "c1"));
    let top = crew("c1", None, CrewVisibility::Public, None, 1);
    match delete_walk_after_crew(&Some(top)) {
        DeleteWalk::Done(Err(NasError::Forbidden(m))) => assert_eq!(m, "해당 Crew 또는 상위 Crew의 Owner만 삭제할 수 있습니다."),
        _ => panic!("expected a refusal"),
    }
    assert!(matches!(delete_walk_after_crew(&None), DeleteWalk::Done(Err(NasError::DataNotFound))));
    assert_eq!(found(Some(3)).unwrap(), 3);
    assert!(matches!(found::<i32>(None), Err(NasError::DataNotFound)));
}

/// Runs the access walk over fixed lookups.
fn resolve(
    user: Option<i64>,
    folder_id: Option<&str>,
    need_write: bool,
    global: Option<CrewMembership>,
    f: Option<FolderMetadata>,
    c: Option<Crew>,
    m: Option<CrewMembership>,
) -> Result<FolderAccess, NasError> {
    let q = AccessQuery { user_id: user, folder_id: folder_id.map(|s| s.to_string()), need_write };
    let mut facts = AccessFacts::new();
    for _ in 0..10 {
        match next_access_step(&q, &facts) {
            AccessStep::Done(r) => return r,
            AccessStep::Lookup(AccessLookup::GlobalMembership(_)) => facts.global_membership = Some(global.clone()),
            AccessStep::Lookup(AccessLookup::Folder(_)) => facts.folder = Some(f.clone()),
            AccessStep::Lookup(AccessLookup::Crew(_)) => facts.crew = Some(c.clone()),
            AccessStep::Lookup(AccessLookup::Membership(_, _)) => facts.membership = Some(m.clone()),
        }
    }
    panic!("the walk did not end");
}

#[test]
fn folder_access_policy() {
    let public = crew("c1", None, CrewVisibility::Public, Some("root"), 3);
    let private = crew("c1", None, CrewVisibility::Private, Some("root"), 3);
    let root = folder("root", Some("c1"), None);
    let sub = folder("sub", Some("c1"), Some("root"));

    // no folder: open to all
    assert_eq!(resolve(None, None, true, None, None, None, None).unwrap(), FolderAccess::Open);
    // global bans and pending approval refuse everywhere
    assert_eq!(err_msg(resolve(Some(7), None, false, member(2, 3), None, None, None)), "차단된 멤버입니다.");
    assert_eq!(err_msg(resolve(Some(7), None, false, member(2, 0), None, None, None)), "가입 승인 대기 중입니다.");
    // missing folder
    assert!(matches!(resolve(None, Some("x"), false, None, None, None, None), Err(NasError::DataNotFound)));
    // folders outside any crew are open; the global crew's are readable and writable
    assert_eq!(resolve(None, Some("f"), true, None, Some(folder("f", None, None)), None, None).unwrap(), FolderAccess::Open);
    assert_eq!(
        resolve(None, Some("g"), true, None, Some(folder("g", Some("global-root-uuid"), None)), None, None).unwrap(),
        FolderAccess::Write
    );
    // outsiders see a public crew's root folder's metadata only
    assert_eq!(resolve(None, Some("root"), false, None, Some(root.clone()), Some(public.clone()), None).unwrap(), FolderAccess::GuestMetaOnly);
    assert!(matches!(resolve(None, Some("sub"), false, None, Some(sub.clone()), Some(public.clone()), None), Err(NasError::DataNotFound)));
    assert!(matches!(resolve(None, Some("root"), false, None, Some(root.clone()), Some(private.clone()), None), Err(NasError::DataNotFound)));
    assert!(matches!(resolve(Some(7), Some("root"), false, None, Some(root.clone()), Some(private.clone()), None), Err(NasError::DataNotFound)));
    // members by role
    assert_eq!(resolve(Some(7), Some("sub"), false, None, Some(sub.clone()), Some(private.clone()), member(2, 1)).unwrap(), FolderAccess::Read);
    assert_eq!(err_msg(resolve(Some(7), Some("sub"), true, None, Some(sub.clone()), Some(private.clone()), member(2, 1))), "쓰기 권한이 없습니다.");
    assert_eq!(resolve(Some(7), Some("sub"), true, None, Some(sub.clone()), Some(private.clone()), member(1, 1)).unwrap(), FolderAccess::Write);
    assert_eq!(resolve(Some(7), Some("root"), false, None, Some(root.clone()), Some(private.clone()), member(3, 1)).unwrap(), FolderAccess::GuestMetaOnly);
    assert_eq!(err_msg(resolve(Some(7), Some("sub"), false, None, Some(sub.clone()), Some(private.clone()), member(3, 1))), "읽기 권한이 없습니다.");
    assert_eq!(err_msg(resolve(Some(7), Some("sub"), false, None, Some(sub.clone()), Some(private.clone()), member(2, 3))), "차단된 멤버입니다.");
    // a pending guest of a public crew sees its root's metadata
    assert_eq!(resolve(Some(7), Some("root"), false, None, Some(root.clone()), Some(public.clone()), member(3, 0)).unwrap(), FolderAccess::GuestMetaOnly);
    assert!(matches!(resolve(Some(7), Some("sub"), false, None, Some(sub), Some(public), member(2, 0)), Err(NasError::DataNotFound)));

    assert_eq!(describe_folder_access(&Ok(FolderAccess::Read), &Err(NasError::DataNotFound)), (true, false));
    assert_eq!(describe_folder_access(&Ok(FolderAccess::Open), &Ok(FolderAccess::Open)), (true, true));
    assert_eq!(describe_folder_access(&Ok(FolderAccess::GuestMetaOnly), &Ok(FolderAccess::GuestMetaOnly)), (false, false));
    assert!(grants_content(FolderAccess::Read));
    assert!(!grants_content(FolderAccess::GuestMetaOnly));
}
