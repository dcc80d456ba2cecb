//! The texts of the interface, in each language.

use vstd::prelude::*;
use crate::text;

verus! {

/// A language of the interface.
#[derive(Clone, Copy, Debug, PartialEq, Eq, Structural)]
pub enum Language {
    English,
    SimplifiedChinese,
}

/// The text that belongs to a language.
pub open spec fn pick(l: Language, english: Seq<char>, chinese: Seq<char>) -> Seq<char> {
    match l {
        Language::English => english,
        Language::SimplifiedChinese => chinese,
    }
}

impl Language {
    // Common dialog buttons

    pub fn ok(self) -> (r: &'static str)
        ensures
            r@ == pick(self, "OK"@, "确定"@),
    {
        match self {
            Language::English => "OK",
            Language::SimplifiedChinese => "确定",
        }
    }

    pub fn cancel(self) -> (r: &'static str)
        ensures
            r@ == pick(self, "Cancel"@, "取消"@),
    {
        match self {
            Language::English => "Cancel",
            Language::SimplifiedChinese => "取消",
        }
    }

    pub fn open(self) -> (r: &'static str)
        ensures
            r@ == pick(self, "Open"@, "打开"@),
    {
        match self {
            Language::English => "Open",
            Language::SimplifiedChinese => "打开",
        }
    }

    pub fn dismiss(self) -> (r: &'static str)
        ensures
            r@ == pick(self, "Dismiss"@, "关闭"@),
    {
        match self {
            Language::English => "Dismiss",
            Language::SimplifiedChinese => "关闭",
        }
    }

    // App dialogs

    pub fn allow_url_open_title(self) -> (r: &'static str)
        ensures
            r@ == pick(self, "Allow terminal to open this URL?"@, "允许终端打开此 URL？"@),
    {
        match self {
            Language::English => "Allow terminal to open this URL?",
            Language::SimplifiedChinese => "允许终端打开此 URL？",
        }
    }

    pub fn url_open_detail(self) -> (r: &'static str)
        ensures
            r@ == pick(self, "A process in this terminal wants to open:"@, "此终端中的某个进程想要打开："@),
    {
        match self {
            Language::English => "A process in this terminal wants to open:",
            Language::SimplifiedChinese => "此终端中的某个进程想要打开：",
        }
    }

    pub fn open_hyperlink_title(self) -> (r: &'static str)
        ensures
            r@ == pick(self, "Open terminal hyperlink?"@, "打开终端超链接？"@),
    {
        match self {
            Language::English => "Open terminal hyperlink?",
            Language::SimplifiedChinese => "打开终端超链接？",
        }
    }

    pub fn hyperlink_open_detail(self) -> (r: &'static str)
        ensures
            r@ == pick(self, "A link in this terminal points to:"@, "此终端中的链接指向："@),
    {
        match self {
            Language::English => "A link in this terminal points to:",
            Language::SimplifiedChinese => "此终端中的链接指向：",
        }
    }

    pub fn choose_receive_files_prompt(self) -> (r: &'static str)
        ensures
            r@ == pick(self, "Choose where to receive terminal files"@, "选择接收终端文件的位置"@),
    {
        match self {
            Language::English => "Choose where to receive terminal files",
            Language::SimplifiedChinese => "选择接收终端文件的位置",
        }
    }

    pub fn close_window_title(self) -> (r: &'static str)
        ensures
            r@ == pick(self, "Close this Eggie window?"@, "关闭此 Eggie 窗口？"@),
    {
        match self {
            Language::English => "Close this Eggie window?",
            Language::SimplifiedChinese => "关闭此 Eggie 窗口？",
        }
    }

    pub fn close_window_message(self) -> (r: &'static str)
        ensures
            r@ == pick(self, "Choose whether its terminal sessions should terminate or stay attached to the daemon."@, "选择其终端会话应终止还是保持连接到守护进程。"@),
    {
        match self {
            Language::English => "Choose whether its terminal sessions should terminate or stay attached to the daemon.",
            Language::SimplifiedChinese => "选择其终端会话应终止还是保持连接到守护进程。",
        }
    }

    pub fn terminate_all(self) -> (r: &'static str)
        ensures
            r@ == pick(self, "Terminate All"@, "全部终止"@),
    {
        match self {
            Language::English => "Terminate All",
            Language::SimplifiedChinese => "全部终止",
        }
    }

    pub fn detach(self) -> (r: &'static str)
        ensures
            r@ == pick(self, "Detach"@, "分离"@),
    {
        match self {
            Language::English => "Detach",
            Language::SimplifiedChinese => "分离",
        }
    }

    pub fn new_project_title(self) -> (r: &'static str)
        ensures
            r@ == pick(self, "New Project"@, "新建项目"@),
    {
        match self {
            Language::English => "New Project",
            Language::SimplifiedChinese => "新建项目",
        }
    }

    pub fn new_project_message(self) -> (r: &'static str)
        ensures
            r@ == pick(self, "Enter a name for the project."@, "输入项目名称。"@),
    {
        match self {
            Language::English => "Enter a name for the project.",
            Language::SimplifiedChinese => "输入项目名称。",
        }
    }

    pub fn project_name_placeholder(self) -> (r: &'static str)
        ensures
            r@ == pick(self, "Project name"@, "项目名称"@),
    {
        match self {
            Language::English => "Project name",
            Language::SimplifiedChinese => "项目名称",
        }
    }

    pub fn set_working_directory_prompt(self) -> (r: &'static str)
        ensures
            r@ == pick(self, "Set Project Working Directory"@, "设置项目工作目录"@),
    {
        match self {
            Language::English => "Set Project Working Directory",
            Language::SimplifiedChinese => "设置项目工作目录",
        }
    }

    pub fn rename_project_title(self) -> (r: &'static str)
        ensures
            r@ == pick(self, "Rename Project"@, "重命名项目"@),
    {
        match self {
            Language::English => "Rename Project",
            Language::SimplifiedChinese => "重命名项目",
        }
    }

    pub fn rename_project_message(self) -> (r: &'static str)
        ensures
            r@ == pick(self, "Enter a new name for the project."@, "输入项目的新名称。"@),
    {
        match self {
            Language::English => "Enter a new name for the project.",
            Language::SimplifiedChinese => "输入项目的新名称。",
        }
    }

    // Section labels

    pub fn projects_label(self) -> (r: &'static str)
        ensures
            r@ == pick(self, "PROJECTS"@, "项目"@),
    {
        match self {
            Language::English => "PROJECTS",
            Language::SimplifiedChinese => "项目",
        }
    }

    /// Group heading in the detached-session popover for sessions whose project no longer exists.
    pub fn detached_other_group(self) -> (r: &'static str)
        ensures
            r@ == pick(self, "Other"@, "其它"@),
    {
        match self {
            Language::English => "Other",
            Language::SimplifiedChinese => "其它",
        }
    }

    pub fn collapse_sidebar_tooltip(self) -> (r: &'static str)
        ensures
            r@ == pick(self, "Collapse sidebar"@, "折叠侧边栏"@),
    {
        match self {
            Language::English => "Collapse sidebar",
            Language::SimplifiedChinese => "折叠侧边栏",
        }
    }

    pub fn expand_sidebar_tooltip(self) -> (r: &'static str)
        ensures
            r@ == pick(self, "Expand sidebar"@, "展开侧边栏"@),
    {
        match self {
            Language::English => "Expand sidebar",
            Language::SimplifiedChinese => "展开侧边栏",
        }
    }

    pub fn new_terminal_tooltip(self) -> (r: &'static str)
        ensures
            r@ == pick(self, "New terminal"@, "新建终端"@),
    {
        match self {
            Language::English => "New terminal",
            Language::SimplifiedChinese => "新建终端",
        }
    }

    pub fn toggle_right_sidebar_tooltip(self) -> (r: &'static str)
        ensures
            r@ == pick(self, "Toggle info panel"@, "切换信息面板"@),
    {
        match self {
            Language::English => "Toggle info panel",
            Language::SimplifiedChinese => "切换信息面板",
        }
    }

    pub fn detached_sessions_tooltip(self) -> (r: &'static str)
        ensures
            r@ == pick(self, "Detached sessions"@, "游离会话"@),
    {
        match self {
            Language::English => "Detached sessions",
            Language::SimplifiedChinese => "游离会话",
        }
    }

    pub fn add_project_tooltip(self) -> (r: &'static str)
        ensures
            r@ == pick(self, "Add project"@, "添加项目"@),
    {
        match self {
            Language::English => "Add project",
            Language::SimplifiedChinese => "添加项目",
        }
    }

    pub fn claim_session_tooltip(self) -> (r: &'static str)
        ensures
            r@ == pick(self, "Claim to this window"@, "接管到此窗口"@),
    {
        match self {
            Language::English => "Claim to this window",
            Language::SimplifiedChinese => "接管到此窗口",
        }
    }

    pub fn destroy_session_tooltip(self) -> (r: &'static str)
        ensures
            r@ == pick(self, "Destroy session"@, "销毁会话"@),
    {
        match self {
            Language::English => "Destroy session",
            Language::SimplifiedChinese => "销毁会话",
        }
    }

    pub fn ports_label(self) -> (r: &'static str)
        ensures
            r@ == pick(self, "PORTS"@, "端口"@),
    {
        match self {
            Language::English => "PORTS",
            Language::SimplifiedChinese => "端口",
        }
    }

    pub fn current_directory_label(self) -> (r: &'static str)
        ensures
            r@ == pick(self, "CURRENT DIRECTORY"@, "当前目录"@),
    {
        match self {
            Language::English => "CURRENT DIRECTORY",
            Language::SimplifiedChinese => "当前目录",
        }
    }

    pub fn source_control_label(self) -> (r: &'static str)
        ensures
            r@ == pick(self, "SOURCE CONTROL"@, "源代码管理"@),
    {
        match self {
            Language::English => "SOURCE CONTROL",
            Language::SimplifiedChinese => "源代码管理",
        }
    }

    pub fn processes_label(self) -> (r: &'static str)
        ensures
            r@ == pick(self, "PROCESSES"@, "进程"@),
    {
        match self {
            Language::English => "PROCESSES",
            Language::SimplifiedChinese => "进程",
        }
    }

    // Right sidebar tabs

    pub fn info_tab(self) -> (r: &'static str)
        ensures
            r@ == pick(self, "Info"@, "信息"@),
    {
        match self {
            Language::English => "Info",
            Language::SimplifiedChinese => "信息",
        }
    }

    pub fn files_tab(self) -> (r: &'static str)
        ensures
            r@ == pick(self, "Files"@, "文件"@),
    {
        match self {
            Language::English => "Files",
            Language::SimplifiedChinese => "文件",
        }
    }

    pub fn git_tab(self) -> (r: &'static str)
        ensures
            r@ == pick(self, "Git"@, "Git"@),
    {
        match self {
            Language::English => "Git",
            Language::SimplifiedChinese => "Git",
        }
    }

    // Right sidebar content

    pub fn current_directory(self) -> (r: &'static str)
        ensures
            r@ == pick(self, "Current directory"@, "当前目录"@),
    {
        match self {
            Language::English => "Current directory",
            Language::SimplifiedChinese => "当前目录",
        }
    }

    pub fn initial_directory(self) -> (r: &'static str)
        ensures
            r@ == pick(self, "Initial directory"@, "初始目录"@),
    {
        match self {
            Language::English => "Initial directory",
            Language::SimplifiedChinese => "初始目录",
        }
    }

    pub fn loading_ports(self) -> (r: &'static str)
        ensures
            r@ == pick(self, "Loading port information…"@, "正在加载端口信息…"@),
    {
        match self {
            Language::English => "Loading port information…",
            Language::SimplifiedChinese => "正在加载端口信息…",
        }
    }

    pub fn loading_process_info(self) -> (r: &'static str)
        ensures
            r@ == pick(self, "Loading process information…"@, "正在加载进程信息…"@),
    {
        match self {
            Language::English => "Loading process information…",
            Language::SimplifiedChinese => "正在加载进程信息…",
        }
    }

    pub fn file_tree_scaffold_note(self) -> (r: &'static str)
        ensures
            r@ == pick(self, "File-tree service is scaffolded for current, initial, and locked roots."@, "文件树服务已为当前、初始和锁定根目录搭建。"@),
    {
        match self {
            Language::English => "File-tree service is scaffolded for current, initial, and locked roots.",
            Language::SimplifiedChinese => "文件树服务已为当前、初始和锁定根目录搭建。",
        }
    }

    pub fn git_scaffold_note(self) -> (r: &'static str)
        ensures
            r@ == pick(self, "Git status, diff, staging, commit, branch, pull, and push services are scaffolded."@, "Git 状态、差异、暂存、提交、分支、拉取和推送服务已搭建。"@),
    {
        match self {
            Language::English => "Git status, diff, staging, commit, branch, pull, and push services are scaffolded.",
            Language::SimplifiedChinese => "Git 状态、差异、暂存、提交、分支、拉取和推送服务已搭建。",
        }
    }

    pub fn no_running_processes(self) -> (r: &'static str)
        ensures
            r@ == pick(self, "No running processes."@, "没有正在运行的进程。"@),
    {
        match self {
            Language::English => "No running processes.",
            Language::SimplifiedChinese => "没有正在运行的进程。",
        }
    }

    pub fn pid_label(self) -> (r: &'static str)
        ensures
            r@ == pick(self, "PID"@, "PID"@),
    {
        match self {
            Language::English => "PID",
            Language::SimplifiedChinese => "PID",
        }
    }

    // Progress states

    pub fn progress_complete(self) -> (r: &'static str)
        ensures
            r@ == pick(self, "Complete"@, "已完成"@),
    {
        match self {
            Language::English => "Complete",
            Language::SimplifiedChinese => "已完成",
        }
    }

    pub fn progress_running(self) -> (r: &'static str)
        ensures
            r@ == pick(self, "Running"@, "运行中"@),
    {
        match self {
            Language::English => "Running",
            Language::SimplifiedChinese => "运行中",
        }
    }

    pub fn progress_error(self) -> (r: &'static str)
        ensures
            r@ == pick(self, "Error"@, "错误"@),
    {
        match self {
            Language::English => "Error",
            Language::SimplifiedChinese => "错误",
        }
    }

    pub fn progress_indeterminate(self) -> (r: &'static str)
        ensures
            r@ == pick(self, "Indeterminate"@, "不确定"@),
    {
        match self {
            Language::English => "Indeterminate",
            Language::SimplifiedChinese => "不确定",
        }
    }

    pub fn progress_paused(self) -> (r: &'static str)
        ensures
            r@ == pick(self, "Paused"@, "已暂停"@),
    {
        match self {
            Language::English => "Paused",
            Language::SimplifiedChinese => "已暂停",
        }
    }

    pub fn updated_just_now(self) -> (r: &'static str)
        ensures
            r@ == pick(self, "updated just now"@, "刚刚更新"@),
    {
        match self {
            Language::English => "updated just now",
            Language::SimplifiedChinese => "刚刚更新",
        }
    }

    pub fn updated_seconds_ago(self, seconds: u64) -> (r: String)
        ensures
            r@ == pick(
                self,
                "updated "@ + text::decimal(seconds as nat) + "s ago"@,
                text::decimal(seconds as nat) + " 秒前更新"@,
            ),
    {
        let mut r: String = String::new();
        match self {
            Language::English => {
                r.append("updated ");
                text::push_decimal(&mut r, seconds);
                r.append("s ago");
                assert(r@ =~= "updated "@ + text::decimal(seconds as nat) + "s ago"@);
            },
            Language::SimplifiedChinese => {
                text::push_decimal(&mut r, seconds);
                r.append(" 秒前更新");
                assert(r@ =~= text::decimal(seconds as nat) + " 秒前更新"@);
            },
        }
        r
    }

    pub fn updated_minutes_ago(self, minutes: u64) -> (r: String)
        ensures
            r@ == pick(
                self,
                "updated "@ + text::decimal(minutes as nat) + "m ago"@,
                text::decimal(minutes as nat) + " 分钟前更新"@,
            ),
    {
        let mut r: String = String::new();
        match self {
            Language::English => {
                r.append("updated ");
                text::push_decimal(&mut r, minutes);
                r.append("m ago");
                assert(r@ =~= "updated "@ + text::decimal(minutes as nat) + "m ago"@);
            },
            Language::SimplifiedChinese => {
                text::push_decimal(&mut r, minutes);
                r.append(" 分钟前更新");
                assert(r@ =~= text::decimal(minutes as nat) + " 分钟前更新"@);
            },
        }
        r
    }

    pub fn updated_hours_ago(self, hours: u64) -> (r: String)
        ensures
            r@ == pick(
                self,
                "updated "@ + text::decimal(hours as nat) + "h ago"@,
                text::decimal(hours as nat) + " 小时前更新"@,
            ),
    {
        let mut r: String = String::new();
        match self {
            Language::English => {
                r.append("updated ");
                text::push_decimal(&mut r, hours);
                r.append("h ago");
                assert(r@ =~= "updated "@ + text::decimal(hours as nat) + "h ago"@);
            },
            Language::SimplifiedChinese => {
                text::push_decimal(&mut r, hours);
                r.append(" 小时前更新");
                assert(r@ =~= text::decimal(hours as nat) + " 小时前更新"@);
            },
        }
        r
    }

    // Native context menus

    pub fn split_up(self) -> (r: &'static str)
        ensures
            r@ == pick(self, "Split Up"@, "向上拆分"@),
    {
        match self {
            Language::English => "Split Up",
            Language::SimplifiedChinese => "向上拆分",
        }
    }

    pub fn split_down(self) -> (r: &'static str)
        ensures
            r@ == pick(self, "Split Down"@, "向下拆分"@),
    {
        match self {
            Language::English => "Split Down",
            Language::SimplifiedChinese => "向下拆分",
        }
    }

    pub fn split_left(self) -> (r: &'static str)
        ensures
            r@ == pick(self, "Split Left"@, "向左拆分"@),
    {
        match self {
            Language::English => "Split Left",
            Language::SimplifiedChinese => "向左拆分",
        }
    }

    pub fn split_right(self) -> (r: &'static str)
        ensures
            r@ == pick(self, "Split Right"@, "向右拆分"@),
    {
        match self {
            Language::English => "Split Right",
            Language::SimplifiedChinese => "向右拆分",
        }
    }

    pub fn move_up(self) -> (r: &'static str)
        ensures
            r@ == pick(self, "Move Up"@, "上移"@),
    {
        match self {
            Language::English => "Move Up",
            Language::SimplifiedChinese => "上移",
        }
    }

    pub fn move_down(self) -> (r: &'static str)
        ensures
            r@ == pick(self, "Move Down"@, "下移"@),
    {
        match self {
            Language::English => "Move Down",
            Language::SimplifiedChinese => "下移",
        }
    }

    pub fn move_left(self) -> (r: &'static str)
        ensures
            r@ == pick(self, "Move Left"@, "左移"@),
    {
        match self {
            Language::English => "Move Left",
            Language::SimplifiedChinese => "左移",
        }
    }

    pub fn move_right(self) -> (r: &'static str)
        ensures
            r@ == pick(self, "Move Right"@, "右移"@),
    {
        match self {
            Language::English => "Move Right",
            Language::SimplifiedChinese => "右移",
        }
    }

    pub fn split_and_move(self) -> (r: &'static str)
        ensures
            r@ == pick(self, "Split and Move"@, "拆分和移动"@),
    {
        match self {
            Language::English => "Split and Move",
            Language::SimplifiedChinese => "拆分和移动",
        }
    }

    pub fn edit_name(self) -> (r: &'static str)
        ensures
            r@ == pick(self, "Edit Name"@, "编辑名称"@),
    {
        match self {
            Language::English => "Edit Name",
            Language::SimplifiedChinese => "编辑名称",
        }
    }

    pub fn set_root(self) -> (r: &'static str)
        ensures
            r@ == pick(self, "Set Working Directory…"@, "设置工作目录…"@),
    {
        match self {
            Language::English => "Set Working Directory…",
            Language::SimplifiedChinese => "设置工作目录…",
        }
    }

    pub fn close_tabs(self, count: usize) -> (r: String)
        ensures
            r@ == pick(
                self,
                "Close "@ + text::decimal(count as nat) + " tab"@ + (if count == 1 {
                    ""@
                } else {
                    "s"@
                }),
                "关闭 "@ + text::decimal(count as nat) + " 个标签页"@,
            ),
    {
        let mut r: String = String::new();
        match self {
            Language::English => {
                r.append("Close ");
                text::push_decimal(&mut r, count as u64);
                r.append(" tab");
                r.append(if count == 1 { "" } else { "s" });
                assert(r@ =~= "Close "@ + text::decimal(count as nat) + " tab"@ + (if count == 1 {
                    ""@
                } else {
                    "s"@
                }));
            },
            Language::SimplifiedChinese => {
                r.append("关闭 ");
                text::push_decimal(&mut r, count as u64);
                r.append(" 个标签页");
                assert(r@ =~= "关闭 "@ + text::decimal(count as nat) + " 个标签页"@);
            },
        }
        r
    }

    pub fn delete_project(self) -> (r: &'static str)
        ensures
            r@ == pick(self, "Delete Project"@, "删除项目"@),
    {
        match self {
            Language::English => "Delete Project",
            Language::SimplifiedChinese => "删除项目",
        }
    }

    pub fn terminate(self) -> (r: &'static str)
        ensures
            r@ == pick(self, "Terminate"@, "终止"@),
    {
        match self {
            Language::English => "Terminate",
            Language::SimplifiedChinese => "终止",
        }
    }

    pub fn force_kill(self) -> (r: &'static str)
        ensures
            r@ == pick(self, "Force Kill"@, "强制结束"@),
    {
        match self {
            Language::English => "Force Kill",
            Language::SimplifiedChinese => "强制结束",
        }
    }

    pub fn copy_pid(self) -> (r: &'static str)
        ensures
            r@ == pick(self, "Copy PID"@, "复制 PID"@),
    {
        match self {
            Language::English => "Copy PID",
            Language::SimplifiedChinese => "复制 PID",
        }
    }

    pub fn copy_executable_path(self) -> (r: &'static str)
        ensures
            r@ == pick(self, "Copy Executable Path"@, "复制可执行文件路径"@),
    {
        match self {
            Language::English => "Copy Executable Path",
            Language::SimplifiedChinese => "复制可执行文件路径",
        }
    }

    // Settings window

    pub fn settings_title(self) -> (r: &'static str)
        ensures
            r@ == pick(self, "Settings"@, "设置"@),
    {
        match self {
            Language::English => "Settings",
            Language::SimplifiedChinese => "设置",
        }
    }

    pub fn settings_menu_item(self) -> (r: &'static str)
        ensures
            r@ == pick(self, "Settings…"@, "设置…"@),
    {
        match self {
            Language::English => "Settings…",
            Language::SimplifiedChinese => "设置…",
        }
    }

    pub fn hide_eggie(self) -> (r: &'static str)
        ensures
            r@ == pick(self, "Hide Eggie"@, "隐藏 Eggie"@),
    {
        match self {
            Language::English => "Hide Eggie",
            Language::SimplifiedChinese => "隐藏 Eggie",
        }
    }

    pub fn hide_others(self) -> (r: &'static str)
        ensures
            r@ == pick(self, "Hide Others"@, "隐藏其他"@),
    {
        match self {
            Language::English => "Hide Others",
            Language::SimplifiedChinese => "隐藏其他",
        }
    }

    pub fn show_all(self) -> (r: &'static str)
        ensures
            r@ == pick(self, "Show All"@, "全部显示"@),
    {
        match self {
            Language::English => "Show All",
            Language::SimplifiedChinese => "全部显示",
        }
    }

    pub fn quit_eggie(self) -> (r: &'static str)
        ensures
            r@ == pick(self, "Quit Eggie"@, "退出 Eggie"@),
    {
        match self {
            Language::English => "Quit Eggie",
            Language::SimplifiedChinese => "退出 Eggie",
        }
    }

    pub fn edit_menu(self) -> (r: &'static str)
        ensures
            r@ == pick(self, "Edit"@, "编辑"@),
    {
        match self {
            Language::English => "Edit",
            Language::SimplifiedChinese => "编辑",
        }
    }

    pub fn file_menu(self) -> (r: &'static str)
        ensures
            r@ == pick(self, "File"@, "文件"@),
    {
        match self {
            Language::English => "File",
            Language::SimplifiedChinese => "文件",
        }
    }

    pub fn new_window_menu_item(self) -> (r: &'static str)
        ensures
            r@ == pick(self, "New Window"@, "新建窗口"@),
    {
        match self {
            Language::English => "New Window",
            Language::SimplifiedChinese => "新建窗口",
        }
    }

    pub fn copy(self) -> (r: &'static str)
        ensures
            r@ == pick(self, "Copy"@, "拷贝"@),
    {
        match self {
            Language::English => "Copy",
            Language::SimplifiedChinese => "拷贝",
        }
    }

    pub fn paste(self) -> (r: &'static str)
        ensures
            r@ == pick(self, "Paste"@, "粘贴"@),
    {
        match self {
            Language::English => "Paste",
            Language::SimplifiedChinese => "粘贴",
        }
    }

    pub fn select_all(self) -> (r: &'static str)
        ensures
            r@ == pick(self, "Select All"@, "全选"@),
    {
        match self {
            Language::English => "Select All",
            Language::SimplifiedChinese => "全选",
        }
    }

    pub fn settings_window_title(self) -> (r: String)
        ensures
            r@ == pick(self, "Eggie — Settings"@, "Eggie — 设置"@),
    {
        match self {
            Language::English => "Eggie — Settings".to_owned(),
            Language::SimplifiedChinese => "Eggie — 设置".to_owned(),
        }
    }

    pub fn general_sidebar(self) -> (r: &'static str)
        ensures
            r@ == pick(self, "General"@, "通用"@),
    {
        match self {
            Language::English => "General",
            Language::SimplifiedChinese => "通用",
        }
    }

    pub fn appearance_sidebar(self) -> (r: &'static str)
        ensures
            r@ == pick(self, "Appearance"@, "外观"@),
    {
        match self {
            Language::English => "Appearance",
            Language::SimplifiedChinese => "外观",
        }
    }

    pub fn advanced_sidebar(self) -> (r: &'static str)
        ensures
            r@ == pick(self, "Advanced"@, "高级"@),
    {
        match self {
            Language::English => "Advanced",
            Language::SimplifiedChinese => "高级",
        }
    }

    pub fn general_section(self) -> (r: &'static str)
        ensures
            r@ == pick(self, "General"@, "通用"@),
    {
        match self {
            Language::English => "General",
            Language::SimplifiedChinese => "通用",
        }
    }

    pub fn appearance_section(self) -> (r: &'static str)
        ensures
            r@ == pick(self, "Appearance"@, "外观"@),
    {
        match self {
            Language::English => "Appearance",
            Language::SimplifiedChinese => "外观",
        }
    }

    pub fn theme_section(self) -> (r: &'static str)
        ensures
            r@ == pick(self, "Theme"@, "主题"@),
    {
        match self {
            Language::English => "Theme",
            Language::SimplifiedChinese => "主题",
        }
    }

    pub fn terminal_text_section(self) -> (r: &'static str)
        ensures
            r@ == pick(self, "Terminal text"@, "终端文本"@),
    {
        match self {
            Language::English => "Terminal text",
            Language::SimplifiedChinese => "终端文本",
        }
    }

    pub fn terminal_layout_section(self) -> (r: &'static str)
        ensures
            r@ == pick(self, "Terminal layout"@, "终端布局"@),
    {
        match self {
            Language::English => "Terminal layout",
            Language::SimplifiedChinese => "终端布局",
        }
    }

    pub fn progress_indicators_section(self) -> (r: &'static str)
        ensures
            r@ == pick(self, "Progress indicators"@, "进度指示器"@),
    {
        match self {
            Language::English => "Progress indicators",
            Language::SimplifiedChinese => "进度指示器",
        }
    }

    pub fn terminal_security_section(self) -> (r: &'static str)
        ensures
            r@ == pick(self, "Terminal security"@, "终端安全"@),
    {
        match self {
            Language::English => "Terminal security",
            Language::SimplifiedChinese => "终端安全",
        }
    }

    pub fn advanced_section(self) -> (r: &'static str)
        ensures
            r@ == pick(self, "Advanced"@, "高级"@),
    {
        match self {
            Language::English => "Advanced",
            Language::SimplifiedChinese => "高级",
        }
    }

    pub fn language_row(self) -> (r: &'static str)
        ensures
            r@ == pick(self, "Language"@, "语言"@),
    {
        match self {
            Language::English => "Language",
            Language::SimplifiedChinese => "语言",
        }
    }

    pub fn language_description(self) -> (r: &'static str)
        ensures
            r@ == pick(self, "Choose the interface language."@, "选择界面语言。"@),
    {
        match self {
            Language::English => "Choose the interface language.",
            Language::SimplifiedChinese => "选择界面语言。",
        }
    }

    pub fn theme_row(self) -> (r: &'static str)
        ensures
            r@ == pick(self, "Theme"@, "主题"@),
    {
        match self {
            Language::English => "Theme",
            Language::SimplifiedChinese => "主题",
        }
    }

    pub fn theme_description(self) -> (r: &'static str)
        ensures
            r@ == pick(self, "Choose dark, light, or follow the macOS appearance."@, "选择深色、浅色，或跟随 macOS 外观。"@),
    {
        match self {
            Language::English => "Choose dark, light, or follow the macOS appearance.",
            Language::SimplifiedChinese => "选择深色、浅色，或跟随 macOS 外观。",
        }
    }

    pub fn dark_theme_row(self) -> (r: &'static str)
        ensures
            r@ == pick(self, "Dark theme"@, "深色主题"@),
    {
        match self {
            Language::English => "Dark theme",
            Language::SimplifiedChinese => "深色主题",
        }
    }

    pub fn dark_theme_description(self) -> (r: &'static str)
        ensures
            r@ == pick(self, "Used in Dark mode and when the system appearance is dark."@, "在深色模式和系统外观为深色时使用。"@),
    {
        match self {
            Language::English => "Used in Dark mode and when the system appearance is dark.",
            Language::SimplifiedChinese => "在深色模式和系统外观为深色时使用。",
        }
    }

    pub fn light_theme_row(self) -> (r: &'static str)
        ensures
            r@ == pick(self, "Light theme"@, "浅色主题"@),
    {
        match self {
            Language::English => "Light theme",
            Language::SimplifiedChinese => "浅色主题",
        }
    }

    pub fn light_theme_description(self) -> (r: &'static str)
        ensures
            r@ == pick(self, "Used in Light mode and when the system appearance is light."@, "在浅色模式和系统外观为浅色时使用。"@),
    {
        match self {
            Language::English => "Used in Light mode and when the system appearance is light.",
            Language::SimplifiedChinese => "在浅色模式和系统外观为浅色时使用。",
        }
    }

    pub fn minimum_contrast_row(self) -> (r: &'static str)
        ensures
            r@ == pick(self, "Minimum contrast"@, "最小对比度"@),
    {
        match self {
            Language::English => "Minimum contrast",
            Language::SimplifiedChinese => "最小对比度",
        }
    }

    pub fn minimum_contrast_description(self) -> (r: &'static str)
        ensures
            r@ == pick(self, "Minimum WCAG contrast ratio between text and each cell background. Emoji and terminal graphics are unchanged."@, "文本与每个单元格背景之间的最小 WCAG 对比度。Emoji 和终端图形不受影响。"@),
    {
        match self {
            Language::English => "Minimum WCAG contrast ratio between text and each cell background. Emoji and terminal graphics are unchanged.",
            Language::SimplifiedChinese => "文本与每个单元格背景之间的最小 WCAG 对比度。Emoji 和终端图形不受影响。",
        }
    }

    pub fn font_row(self) -> (r: &'static str)
        ensures
            r@ == pick(self, "Font"@, "字体"@),
    {
        match self {
            Language::English => "Font",
            Language::SimplifiedChinese => "字体",
        }
    }

    pub fn font_description(self) -> (r: &'static str)
        ensures
            r@ == pick(self, "Only installed monospaced fonts are listed."@, "仅列出已安装的等宽字体。"@),
    {
        match self {
            Language::English => "Only installed monospaced fonts are listed.",
            Language::SimplifiedChinese => "仅列出已安装的等宽字体。",
        }
    }

    pub fn font_family_use_regular(self) -> (r: &'static str)
        ensures
            r@ == pick(self, "Use regular font"@, "跟随常规字体"@),
    {
        match self {
            Language::English => "Use regular font",
            Language::SimplifiedChinese => "跟随常规字体",
        }
    }

    pub fn font_bold_row(self) -> (r: &'static str)
        ensures
            r@ == pick(self, "Bold font"@, "粗体字体"@),
    {
        match self {
            Language::English => "Bold font",
            Language::SimplifiedChinese => "粗体字体",
        }
    }

    pub fn font_bold_description(self) -> (r: &'static str)
        ensures
            r@ == pick(self, "Font for bold text. Falls back to the regular font when unset."@, "粗体文本使用的字体。未设置时跟随常规字体。"@),
    {
        match self {
            Language::English => "Font for bold text. Falls back to the regular font when unset.",
            Language::SimplifiedChinese => "粗体文本使用的字体。未设置时跟随常规字体。",
        }
    }

    pub fn font_italic_row(self) -> (r: &'static str)
        ensures
            r@ == pick(self, "Italic font"@, "斜体字体"@),
    {
        match self {
            Language::English => "Italic font",
            Language::SimplifiedChinese => "斜体字体",
        }
    }

    pub fn font_italic_description(self) -> (r: &'static str)
        ensures
            r@ == pick(self, "Font for italic text. Falls back to the regular font when unset."@, "斜体文本使用的字体。未设置时跟随常规字体。"@),
    {
        match self {
            Language::English => "Font for italic text. Falls back to the regular font when unset.",
            Language::SimplifiedChinese => "斜体文本使用的字体。未设置时跟随常规字体。",
        }
    }

    pub fn font_bold_italic_row(self) -> (r: &'static str)
        ensures
            r@ == pick(self, "Bold italic font"@, "粗斜体字体"@),
    {
        match self {
            Language::English => "Bold italic font",
            Language::SimplifiedChinese => "粗斜体字体",
        }
    }

    pub fn font_bold_italic_description(self) -> (r: &'static str)
        ensures
            r@ == pick(self, "Font for bold italic text. Falls back to the regular font when unset."@, "粗斜体文本使用的字体。未设置时跟随常规字体。"@),
    {
        match self {
            Language::English => "Font for bold italic text. Falls back to the regular font when unset.",
            Language::SimplifiedChinese => "粗斜体文本使用的字体。未设置时跟随常规字体。",
        }
    }

    pub fn synthetic_bold_row(self) -> (r: &'static str)
        ensures
            r@ == pick(self, "Synthesize bold"@, "合成粗体"@),
    {
        match self {
            Language::English => "Synthesize bold",
            Language::SimplifiedChinese => "合成粗体",
        }
    }

    pub fn synthetic_bold_description(self) -> (r: &'static str)
        ensures
            r@ == pick(self, "Fake bold by thickening strokes when the font lacks a bold face and no bold family is set."@, "当字体没有粗体且未指定粗体字体时，通过加粗笔画模拟粗体。"@),
    {
        match self {
            Language::English => "Fake bold by thickening strokes when the font lacks a bold face and no bold family is set.",
            Language::SimplifiedChinese => "当字体没有粗体且未指定粗体字体时，通过加粗笔画模拟粗体。",
        }
    }

    pub fn synthetic_italic_row(self) -> (r: &'static str)
        ensures
            r@ == pick(self, "Synthesize italic"@, "合成斜体"@),
    {
        match self {
            Language::English => "Synthesize italic",
            Language::SimplifiedChinese => "合成斜体",
        }
    }

    pub fn synthetic_italic_description(self) -> (r: &'static str)
        ensures
            r@ == pick(self, "Fake italic by skewing glyphs when the font lacks an italic face and no italic family is set."@, "当字体没有斜体且未指定斜体字体时，通过倾斜字形模拟斜体。"@),
    {
        match self {
            Language::English => "Fake italic by skewing glyphs when the font lacks an italic face and no italic family is set.",
            Language::SimplifiedChinese => "当字体没有斜体且未指定斜体字体时，通过倾斜字形模拟斜体。",
        }
    }

    pub fn synthetic_bold_italic_row(self) -> (r: &'static str)
        ensures
            r@ == pick(self, "Synthesize bold italic"@, "合成粗斜体"@),
    {
        match self {
            Language::English => "Synthesize bold italic",
            Language::SimplifiedChinese => "合成粗斜体",
        }
    }

    pub fn synthetic_bold_italic_description(self) -> (r: &'static str)
        ensures
            r@ == pick(self, "Synthesize the bold italic style when the font and families lack it."@, "当字体与所选字体族都缺少粗斜体时，合成粗斜体样式。"@),
    {
        match self {
            Language::English => "Synthesize the bold italic style when the font and families lack it.",
            Language::SimplifiedChinese => "当字体与所选字体族都缺少粗斜体时，合成粗斜体样式。",
        }
    }

    pub fn ligatures_row(self) -> (r: &'static str)
        ensures
            r@ == pick(self, "Ligatures"@, "连字"@),
    {
        match self {
            Language::English => "Ligatures",
            Language::SimplifiedChinese => "连字",
        }
    }

    pub fn ligatures_description(self) -> (r: &'static str)
        ensures
            r@ == pick(self, "Combine sequences like -> and ==> into single glyphs (requires a font with programming ligatures)."@, "将 -> 、==> 等序列合并为连字（需字体本身包含编程连字）。"@),
    {
        match self {
            Language::English => "Combine sequences like -> and ==> into single glyphs (requires a font with programming ligatures).",
            Language::SimplifiedChinese => "将 -> 、==> 等序列合并为连字（需字体本身包含编程连字）。",
        }
    }

    pub fn shaping_break_row(self) -> (r: &'static str)
        ensures
            r@ == pick(self, "Break ligature at cursor"@, "光标处拆分连字"@),
    {
        match self {
            Language::English => "Break ligature at cursor",
            Language::SimplifiedChinese => "光标处拆分连字",
        }
    }

    pub fn shaping_break_description(self) -> (r: &'static str)
        ensures
            r@ == pick(self, "Render the character under the cursor un-ligated so editing sees individual characters."@, "光标所在字符不参与连字，便于编辑时看清单个字符。"@),
    {
        match self {
            Language::English => "Render the character under the cursor un-ligated so editing sees individual characters.",
            Language::SimplifiedChinese => "光标所在字符不参与连字，便于编辑时看清单个字符。",
        }
    }

    pub fn font_thicken_row(self) -> (r: &'static str)
        ensures
            r@ == pick(self, "Thicken"@, "字体加粗"@),
    {
        match self {
            Language::English => "Thicken",
            Language::SimplifiedChinese => "字体加粗",
        }
    }

    pub fn font_thicken_description(self) -> (r: &'static str)
        ensures
            r@ == pick(self, "Thicken glyph strokes via macOS font smoothing."@, "通过 macOS 字体平滑加粗字形笔画。"@),
    {
        match self {
            Language::English => "Thicken glyph strokes via macOS font smoothing.",
            Language::SimplifiedChinese => "通过 macOS 字体平滑加粗字形笔画。",
        }
    }

    pub fn font_thicken_strength_row(self) -> (r: &'static str)
        ensures
            r@ == pick(self, "Thicken strength"@, "加粗强度"@),
    {
        match self {
            Language::English => "Thicken strength",
            Language::SimplifiedChinese => "加粗强度",
        }
    }

    pub fn font_thicken_strength_description(self) -> (r: &'static str)
        ensures
            r@ == pick(self, "How much to thicken (0–255) when thickening is enabled."@, "开启加粗时的强度（0–255）。"@),
    {
        match self {
            Language::English => "How much to thicken (0–255) when thickening is enabled.",
            Language::SimplifiedChinese => "开启加粗时的强度（0–255）。",
        }
    }

    pub fn font_size_row(self) -> (r: &'static str)
        ensures
            r@ == pick(self, "Font size"@, "字号"@),
    {
        match self {
            Language::English => "Font size",
            Language::SimplifiedChinese => "字号",
        }
    }

    pub fn font_size_description(self) -> (r: &'static str)
        ensures
            r@ == pick(self, "Applied to every terminal and used when calculating the PTY grid."@, "应用于所有终端，并用于计算 PTY 网格。"@),
    {
        match self {
            Language::English => "Applied to every terminal and used when calculating the PTY grid.",
            Language::SimplifiedChinese => "应用于所有终端，并用于计算 PTY 网格。",
        }
    }

    pub fn horizontal_padding_row(self) -> (r: &'static str)
        ensures
            r@ == pick(self, "Horizontal padding"@, "水平内边距"@),
    {
        match self {
            Language::English => "Horizontal padding",
            Language::SimplifiedChinese => "水平内边距",
        }
    }

    pub fn horizontal_padding_description(self) -> (r: &'static str)
        ensures
            r@ == pick(self, "Left and right padding around the terminal grid."@, "终端网格左右两侧的内边距。"@),
    {
        match self {
            Language::English => "Left and right padding around the terminal grid.",
            Language::SimplifiedChinese => "终端网格左右两侧的内边距。",
        }
    }

    pub fn vertical_padding_row(self) -> (r: &'static str)
        ensures
            r@ == pick(self, "Vertical padding"@, "垂直内边距"@),
    {
        match self {
            Language::English => "Vertical padding",
            Language::SimplifiedChinese => "垂直内边距",
        }
    }

    pub fn vertical_padding_description(self) -> (r: &'static str)
        ensures
            r@ == pick(self, "Top and bottom padding around the terminal grid."@, "终端网格上下两侧的内边距。"@),
    {
        match self {
            Language::English => "Top and bottom padding around the terminal grid.",
            Language::SimplifiedChinese => "终端网格上下两侧的内边距。",
        }
    }

    pub fn font_metrics_section(self) -> (r: &'static str)
        ensures
            r@ == pick(self, "Font metrics"@, "字体度量"@),
    {
        match self {
            Language::English => "Font metrics",
            Language::SimplifiedChinese => "字体度量",
        }
    }

    pub fn adjust_cell_width_row(self) -> (r: &'static str)
        ensures
            r@ == pick(self, "Cell width"@, "单元格宽度"@),
    {
        match self {
            Language::English => "Cell width",
            Language::SimplifiedChinese => "单元格宽度",
        }
    }

    pub fn adjust_cell_width_description(self) -> (r: &'static str)
        ensures
            r@ == pick(self, "Pixel adjustment to each cell's width. Changes the grid columns."@, "对每个单元格宽度的像素微调，会改变网格列数。"@),
    {
        match self {
            Language::English => "Pixel adjustment to each cell's width. Changes the grid columns.",
            Language::SimplifiedChinese => "对每个单元格宽度的像素微调，会改变网格列数。",
        }
    }

    pub fn adjust_cell_height_row(self) -> (r: &'static str)
        ensures
            r@ == pick(self, "Cell height"@, "单元格高度"@),
    {
        match self {
            Language::English => "Cell height",
            Language::SimplifiedChinese => "单元格高度",
        }
    }

    pub fn adjust_cell_height_description(self) -> (r: &'static str)
        ensures
            r@ == pick(self, "Pixel adjustment to each cell's height. Changes the grid rows."@, "对每个单元格高度的像素微调，会改变网格行数。"@),
    {
        match self {
            Language::English => "Pixel adjustment to each cell's height. Changes the grid rows.",
            Language::SimplifiedChinese => "对每个单元格高度的像素微调，会改变网格行数。",
        }
    }

    pub fn adjust_font_baseline_row(self) -> (r: &'static str)
        ensures
            r@ == pick(self, "Font baseline"@, "字体基线"@),
    {
        match self {
            Language::English => "Font baseline",
            Language::SimplifiedChinese => "字体基线",
        }
    }

    pub fn adjust_font_baseline_description(self) -> (r: &'static str)
        ensures
            r@ == pick(self, "Pixel adjustment to the text baseline within each cell."@, "对单元格内文本基线位置的像素微调。"@),
    {
        match self {
            Language::English => "Pixel adjustment to the text baseline within each cell.",
            Language::SimplifiedChinese => "对单元格内文本基线位置的像素微调。",
        }
    }

    pub fn adjust_underline_position_row(self) -> (r: &'static str)
        ensures
            r@ == pick(self, "Underline position"@, "下划线位置"@),
    {
        match self {
            Language::English => "Underline position",
            Language::SimplifiedChinese => "下划线位置",
        }
    }

    pub fn adjust_underline_position_description(self) -> (r: &'static str)
        ensures
            r@ == pick(self, "Pixel adjustment to how far down the underline sits."@, "对下划线下沉距离的像素微调。"@),
    {
        match self {
            Language::English => "Pixel adjustment to how far down the underline sits.",
            Language::SimplifiedChinese => "对下划线下沉距离的像素微调。",
        }
    }

    pub fn adjust_underline_thickness_row(self) -> (r: &'static str)
        ensures
            r@ == pick(self, "Underline thickness"@, "下划线粗细"@),
    {
        match self {
            Language::English => "Underline thickness",
            Language::SimplifiedChinese => "下划线粗细",
        }
    }

    pub fn adjust_underline_thickness_description(self) -> (r: &'static str)
        ensures
            r@ == pick(self, "Pixel adjustment to the underline stroke thickness."@, "对下划线笔画粗细的像素微调。"@),
    {
        match self {
            Language::English => "Pixel adjustment to the underline stroke thickness.",
            Language::SimplifiedChinese => "对下划线笔画粗细的像素微调。",
        }
    }

    pub fn adjust_strikethrough_position_row(self) -> (r: &'static str)
        ensures
            r@ == pick(self, "Strikethrough position"@, "删除线位置"@),
    {
        match self {
            Language::English => "Strikethrough position",
            Language::SimplifiedChinese => "删除线位置",
        }
    }

    pub fn adjust_strikethrough_position_description(self) -> (r: &'static str)
        ensures
            r@ == pick(self, "Pixel adjustment to how far down the strikethrough sits."@, "对删除线下沉距离的像素微调。"@),
    {
        match self {
            Language::English => "Pixel adjustment to how far down the strikethrough sits.",
            Language::SimplifiedChinese => "对删除线下沉距离的像素微调。",
        }
    }

    pub fn adjust_strikethrough_thickness_row(self) -> (r: &'static str)
        ensures
            r@ == pick(self, "Strikethrough thickness"@, "删除线粗细"@),
    {
        match self {
            Language::English => "Strikethrough thickness",
            Language::SimplifiedChinese => "删除线粗细",
        }
    }

    pub fn adjust_strikethrough_thickness_description(self) -> (r: &'static str)
        ensures
            r@ == pick(self, "Pixel adjustment to the strikethrough stroke thickness."@, "对删除线笔画粗细的像素微调。"@),
    {
        match self {
            Language::English => "Pixel adjustment to the strikethrough stroke thickness.",
            Language::SimplifiedChinese => "对删除线笔画粗细的像素微调。",
        }
    }

    pub fn adjust_cursor_thickness_row(self) -> (r: &'static str)
        ensures
            r@ == pick(self, "Cursor thickness"@, "光标粗细"@),
    {
        match self {
            Language::English => "Cursor thickness",
            Language::SimplifiedChinese => "光标粗细",
        }
    }

    pub fn adjust_cursor_thickness_description(self) -> (r: &'static str)
        ensures
            r@ == pick(self, "Pixel adjustment to the bar/underline/hollow cursor stroke."@, "对竖线/下划线/空心光标笔画粗细的像素微调。"@),
    {
        match self {
            Language::English => "Pixel adjustment to the bar/underline/hollow cursor stroke.",
            Language::SimplifiedChinese => "对竖线/下划线/空心光标笔画粗细的像素微调。",
        }
    }

    pub fn adjust_box_thickness_row(self) -> (r: &'static str)
        ensures
            r@ == pick(self, "Box-drawing thickness"@, "制表符线条粗细"@),
    {
        match self {
            Language::English => "Box-drawing thickness",
            Language::SimplifiedChinese => "制表符线条粗细",
        }
    }

    pub fn adjust_box_thickness_description(self) -> (r: &'static str)
        ensures
            r@ == pick(self, "Pixel adjustment to box-drawing line thickness."@, "对制表符（框线）线条粗细的像素微调。"@),
    {
        match self {
            Language::English => "Pixel adjustment to box-drawing line thickness.",
            Language::SimplifiedChinese => "对制表符（框线）线条粗细的像素微调。",
        }
    }

    pub fn adjust_icon_height_row(self) -> (r: &'static str)
        ensures
            r@ == pick(self, "Nerd Font icon height"@, "Nerd Font 图标高度"@),
    {
        match self {
            Language::English => "Nerd Font icon height",
            Language::SimplifiedChinese => "Nerd Font 图标高度",
        }
    }

    pub fn adjust_icon_height_description(self) -> (r: &'static str)
        ensures
            r@ == pick(self, "Percentage or pixel adjustment to Nerd Font icon height."@, "对 Nerd Font 图标高度的百分比或像素微调。"@),
    {
        match self {
            Language::English => "Percentage or pixel adjustment to Nerd Font icon height.",
            Language::SimplifiedChinese => "对 Nerd Font 图标高度的百分比或像素微调。",
        }
    }

    pub fn completed_timeout_row(self) -> (r: &'static str)
        ensures
            r@ == pick(self, "Completed timeout"@, "完成超时"@),
    {
        match self {
            Language::English => "Completed timeout",
            Language::SimplifiedChinese => "完成超时",
        }
    }

    pub fn completed_timeout_description(self) -> (r: &'static str)
        ensures
            r@ == pick(self, "Hide completed OSC 9;4 progress after this delay."@, "在此延迟后隐藏已完成的 OSC 9;4 进度。"@),
    {
        match self {
            Language::English => "Hide completed OSC 9;4 progress after this delay.",
            Language::SimplifiedChinese => "在此延迟后隐藏已完成的 OSC 9;4 进度。",
        }
    }

    pub fn inactive_timeout_row(self) -> (r: &'static str)
        ensures
            r@ == pick(self, "Inactive timeout"@, "不活动超时"@),
    {
        match self {
            Language::English => "Inactive timeout",
            Language::SimplifiedChinese => "不活动超时",
        }
    }

    pub fn inactive_timeout_description(self) -> (r: &'static str)
        ensures
            r@ == pick(self, "Hide running, error, paused, or indeterminate progress when no update arrives for this long."@, "当长时间没有更新时，隐藏运行中、错误、已暂停或不确定的进度。"@),
    {
        match self {
            Language::English => "Hide running, error, paused, or indeterminate progress when no update arrives for this long.",
            Language::SimplifiedChinese => "当长时间没有更新时，隐藏运行中、错误、已暂停或不确定的进度。",
        }
    }

    pub fn osc_clipboard_read_row(self) -> (r: &'static str)
        ensures
            r@ == pick(self, "OSC clipboard read"@, "OSC 剪贴板读取"@),
    {
        match self {
            Language::English => "OSC clipboard read",
            Language::SimplifiedChinese => "OSC 剪贴板读取",
        }
    }

    pub fn osc_clipboard_read_description(self) -> (r: &'static str)
        ensures
            r@ == pick(self, "Allow terminal programs to read the system clipboard through OSC 52 or OSC 5522. Writes remain enabled."@, "允许终端程序通过 OSC 52 或 OSC 5522 读取系统剪贴板。写入保持启用。"@),
    {
        match self {
            Language::English => "Allow terminal programs to read the system clipboard through OSC 52 or OSC 5522. Writes remain enabled.",
            Language::SimplifiedChinese => "允许终端程序通过 OSC 52 或 OSC 5522 读取系统剪贴板。写入保持启用。",
        }
    }

    pub fn block(self) -> (r: &'static str)
        ensures
            r@ == pick(self, "Block"@, "阻止"@),
    {
        match self {
            Language::English => "Block",
            Language::SimplifiedChinese => "阻止",
        }
    }

    pub fn allow(self) -> (r: &'static str)
        ensures
            r@ == pick(self, "Allow"@, "允许"@),
    {
        match self {
            Language::English => "Allow",
            Language::SimplifiedChinese => "允许",
        }
    }

    pub fn enabled(self) -> (r: &'static str)
        ensures
            r@ == pick(self, "Enabled"@, "启用"@),
    {
        match self {
            Language::English => "Enabled",
            Language::SimplifiedChinese => "启用",
        }
    }

    pub fn disabled(self) -> (r: &'static str)
        ensures
            r@ == pick(self, "Disabled"@, "禁用"@),
    {
        match self {
            Language::English => "Disabled",
            Language::SimplifiedChinese => "禁用",
        }
    }

    pub fn terminal_behavior_section(self) -> (r: &'static str)
        ensures
            r@ == pick(self, "Terminal behavior"@, "终端行为"@),
    {
        match self {
            Language::English => "Terminal behavior",
            Language::SimplifiedChinese => "终端行为",
        }
    }

    pub fn detect_urls_row(self) -> (r: &'static str)
        ensures
            r@ == pick(self, "Detect URLs"@, "URL 检测"@),
    {
        match self {
            Language::English => "Detect URLs",
            Language::SimplifiedChinese => "URL 检测",
        }
    }

    pub fn detect_urls_description(self) -> (r: &'static str)
        ensures
            r@ == pick(self, "Highlight bare URLs in terminal output so they can be hovered and opened with Cmd/Ctrl+click."@, "高亮终端输出中的裸露 URL，可悬停并用 Cmd/Ctrl+点击打开。"@),
    {
        match self {
            Language::English => "Highlight bare URLs in terminal output so they can be hovered and opened with Cmd/Ctrl+click.",
            Language::SimplifiedChinese => "高亮终端输出中的裸露 URL，可悬停并用 Cmd/Ctrl+点击打开。",
        }
    }

    pub fn copy_on_select_row(self) -> (r: &'static str)
        ensures
            r@ == pick(self, "Copy on select"@, "选中即复制"@),
    {
        match self {
            Language::English => "Copy on select",
            Language::SimplifiedChinese => "选中即复制",
        }
    }

    pub fn copy_on_select_description(self) -> (r: &'static str)
        ensures
            r@ == pick(self, "Automatically copy text to the clipboard as soon as it is selected with the mouse."@, "鼠标选中文本后自动复制到剪贴板。"@),
    {
        match self {
            Language::English => "Automatically copy text to the clipboard as soon as it is selected with the mouse.",
            Language::SimplifiedChinese => "鼠标选中文本后自动复制到剪贴板。",
        }
    }

    pub fn cursor_section(self) -> (r: &'static str)
        ensures
            r@ == pick(self, "Cursor"@, "光标"@),
    {
        match self {
            Language::English => "Cursor",
            Language::SimplifiedChinese => "光标",
        }
    }

    pub fn cursor_shape_row(self) -> (r: &'static str)
        ensures
            r@ == pick(self, "Cursor shape"@, "光标形状"@),
    {
        match self {
            Language::English => "Cursor shape",
            Language::SimplifiedChinese => "光标形状",
        }
    }

    pub fn cursor_shape_description(self) -> (r: &'static str)
        ensures
            r@ == pick(self, "The default cursor shape. Programs can still override it at runtime (DECSCUSR)."@, "默认光标形状。程序仍可在运行时覆盖（DECSCUSR）。"@),
    {
        match self {
            Language::English => "The default cursor shape. Programs can still override it at runtime (DECSCUSR).",
            Language::SimplifiedChinese => "默认光标形状。程序仍可在运行时覆盖（DECSCUSR）。",
        }
    }

    pub fn scrollback_lines_row(self) -> (r: &'static str)
        ensures
            r@ == pick(self, "Scrollback lines"@, "回滚行数"@),
    {
        match self {
            Language::English => "Scrollback lines",
            Language::SimplifiedChinese => "回滚行数",
        }
    }

    pub fn scrollback_lines_description(self) -> (r: &'static str)
        ensures
            r@ == pick(self, "How many lines of terminal history to keep (0 disables scrollback). Applies to all terminals immediately."@, "保留的终端历史行数（0 表示禁用回滚）。立即应用到所有终端。"@),
    {
        match self {
            Language::English => "How many lines of terminal history to keep (0 disables scrollback). Applies to all terminals immediately.",
            Language::SimplifiedChinese => "保留的终端历史行数（0 表示禁用回滚）。立即应用到所有终端。",
        }
    }

    pub fn shell_section(self) -> (r: &'static str)
        ensures
            r@ == pick(self, "Shell"@, "Shell"@),
    {
        match self {
            Language::English => "Shell",
            Language::SimplifiedChinese => "Shell",
        }
    }

    pub fn shell_program_row(self) -> (r: &'static str)
        ensures
            r@ == pick(self, "Shell program"@, "Shell 程序"@),
    {
        match self {
            Language::English => "Shell program",
            Language::SimplifiedChinese => "Shell 程序",
        }
    }

    pub fn shell_program_description(self) -> (r: &'static str)
        ensures
            r@ == pick(self, "Path to the shell to launch. Leave empty to use $SHELL. Applies to newly created terminals only."@, "要启动的 shell 路径。留空则使用 $SHELL。仅对新建终端生效。"@),
    {
        match self {
            Language::English => "Path to the shell to launch. Leave empty to use $SHELL. Applies to newly created terminals only.",
            Language::SimplifiedChinese => "要启动的 shell 路径。留空则使用 $SHELL。仅对新建终端生效。",
        }
    }

    pub fn shell_args_row(self) -> (r: &'static str)
        ensures
            r@ == pick(self, "Shell arguments"@, "Shell 参数"@),
    {
        match self {
            Language::English => "Shell arguments",
            Language::SimplifiedChinese => "Shell 参数",
        }
    }

    pub fn shell_args_description(self) -> (r: &'static str)
        ensures
            r@ == pick(self, "Space-separated arguments passed to the shell. Leave empty for the default. Applies to newly created terminals only."@, "传给 shell 的参数，以空格分隔。留空则使用默认值。仅对新建终端生效。"@),
    {
        match self {
            Language::English => "Space-separated arguments passed to the shell. Leave empty for the default. Applies to newly created terminals only.",
            Language::SimplifiedChinese => "传给 shell 的参数，以空格分隔。留空则使用默认值。仅对新建终端生效。",
        }
    }

    pub fn shell_integration_path_row(self) -> (r: &'static str)
        ensures
            r@ == pick(self, "Add Eggie to PATH"@, "将 Eggie 加入 PATH"@),
    {
        match self {
            Language::English => "Add Eggie to PATH",
            Language::SimplifiedChinese => "将 Eggie 加入 PATH",
        }
    }

    pub fn shell_integration_path_description(self) -> (r: &'static str)
        ensures
            r@ == pick(self, "Append Eggie's binary directory to the shell PATH so `eggie +version` and other CLI commands work in the terminal. Applies to newly created terminals only."@, "将 Eggie 二进制所在目录追加到 shell PATH，使 `eggie +version` 等命令行命令可在终端内直接调用。仅对新建终端生效。"@),
    {
        match self {
            Language::English => "Append Eggie's binary directory to the shell PATH so `eggie +version` and other CLI commands work in the terminal. Applies to newly created terminals only.",
            Language::SimplifiedChinese => "将 Eggie 二进制所在目录追加到 shell PATH，使 `eggie +version` 等命令行命令可在终端内直接调用。仅对新建终端生效。",
        }
    }

    pub fn shell_program_placeholder(self) -> (r: &'static str)
        ensures
            r@ == pick(self, "e.g. /opt/homebrew/bin/fish"@, "例如 /opt/homebrew/bin/fish"@),
    {
        match self {
            Language::English => "e.g. /opt/homebrew/bin/fish",
            Language::SimplifiedChinese => "例如 /opt/homebrew/bin/fish",
        }
    }

    pub fn shell_args_placeholder(self) -> (r: &'static str)
        ensures
            r@ == pick(self, "e.g. -l"@, "例如 -l"@),
    {
        match self {
            Language::English => "e.g. -l",
            Language::SimplifiedChinese => "例如 -l",
        }
    }

    pub fn cursor_shape_block(self) -> (r: &'static str)
        ensures
            r@ == pick(self, "Block"@, "方块"@),
    {
        match self {
            Language::English => "Block",
            Language::SimplifiedChinese => "方块",
        }
    }

    pub fn cursor_shape_bar(self) -> (r: &'static str)
        ensures
            r@ == pick(self, "Bar"@, "竖线"@),
    {
        match self {
            Language::English => "Bar",
            Language::SimplifiedChinese => "竖线",
        }
    }

    pub fn cursor_shape_underline(self) -> (r: &'static str)
        ensures
            r@ == pick(self, "Underline"@, "下划线"@),
    {
        match self {
            Language::English => "Underline",
            Language::SimplifiedChinese => "下划线",
        }
    }

    pub fn cursor_shape_block_hollow(self) -> (r: &'static str)
        ensures
            r@ == pick(self, "Hollow"@, "空心"@),
    {
        match self {
            Language::English => "Hollow",
            Language::SimplifiedChinese => "空心",
        }
    }

    pub fn cursor_blink_row(self) -> (r: &'static str)
        ensures
            r@ == pick(self, "Cursor blink"@, "光标闪烁"@),
    {
        match self {
            Language::English => "Cursor blink",
            Language::SimplifiedChinese => "光标闪烁",
        }
    }

    pub fn cursor_blink_description(self) -> (r: &'static str)
        ensures
            r@ == pick(self, "Whether the cursor blinks. Follow lets programs decide (DECSCUSR / DEC Mode 12)."@, "光标是否闪烁。「跟随程序」由程序决定（DECSCUSR / DEC Mode 12）。"@),
    {
        match self {
            Language::English => "Whether the cursor blinks. Follow lets programs decide (DECSCUSR / DEC Mode 12).",
            Language::SimplifiedChinese => "光标是否闪烁。「跟随程序」由程序决定（DECSCUSR / DEC Mode 12）。",
        }
    }

    pub fn cursor_blink_program(self) -> (r: &'static str)
        ensures
            r@ == pick(self, "Follow"@, "跟随程序"@),
    {
        match self {
            Language::English => "Follow",
            Language::SimplifiedChinese => "跟随程序",
        }
    }

    pub fn cursor_blink_on(self) -> (r: &'static str)
        ensures
            r@ == pick(self, "On"@, "开"@),
    {
        match self {
            Language::English => "On",
            Language::SimplifiedChinese => "开",
        }
    }

    pub fn cursor_blink_off(self) -> (r: &'static str)
        ensures
            r@ == pick(self, "Off"@, "关"@),
    {
        match self {
            Language::English => "Off",
            Language::SimplifiedChinese => "关",
        }
    }

    pub fn terminal_preview_label(self) -> (r: &'static str)
        ensures
            r@ == pick(self, "TERMINAL PREVIEW"@, "终端预览"@),
    {
        match self {
            Language::English => "TERMINAL PREVIEW",
            Language::SimplifiedChinese => "终端预览",
        }
    }

    pub fn search_dark_themes(self) -> (r: &'static str)
        ensures
            r@ == pick(self, "Search dark themes"@, "搜索深色主题"@),
    {
        match self {
            Language::English => "Search dark themes",
            Language::SimplifiedChinese => "搜索深色主题",
        }
    }

    pub fn search_light_themes(self) -> (r: &'static str)
        ensures
            r@ == pick(self, "Search light themes"@, "搜索浅色主题"@),
    {
        match self {
            Language::English => "Search light themes",
            Language::SimplifiedChinese => "搜索浅色主题",
        }
    }

    pub fn search_fonts(self) -> (r: &'static str)
        ensures
            r@ == pick(self, "Search fonts"@, "搜索字体"@),
    {
        match self {
            Language::English => "Search fonts",
            Language::SimplifiedChinese => "搜索字体",
        }
    }

    pub fn search_placeholder(self) -> (r: &'static str)
        ensures
            r@ == pick(self, "Find"@, "查找"@),
    {
        match self {
            Language::English => "Find",
            Language::SimplifiedChinese => "查找",
        }
    }

    pub fn no_matches(self) -> (r: &'static str)
        ensures
            r@ == pick(self, "No matches"@, "无匹配项"@),
    {
        match self {
            Language::English => "No matches",
            Language::SimplifiedChinese => "无匹配项",
        }
    }

    pub fn theme_mode_dark(self) -> (r: &'static str)
        ensures
            r@ == pick(self, "Dark"@, "深色"@),
    {
        match self {
            Language::English => "Dark",
            Language::SimplifiedChinese => "深色",
        }
    }

    pub fn theme_mode_light(self) -> (r: &'static str)
        ensures
            r@ == pick(self, "Light"@, "浅色"@),
    {
        match self {
            Language::English => "Light",
            Language::SimplifiedChinese => "浅色",
        }
    }

    pub fn theme_mode_system(self) -> (r: &'static str)
        ensures
            r@ == pick(self, "System"@, "跟随系统"@),
    {
        match self {
            Language::English => "System",
            Language::SimplifiedChinese => "跟随系统",
        }
    }

    // Keyboard shortcuts

    pub fn keybindings_sidebar(self) -> (r: &'static str)
        ensures
            r@ == pick(self, "Keyboard"@, "键盘"@),
    {
        match self {
            Language::English => "Keyboard",
            Language::SimplifiedChinese => "键盘",
        }
    }

    pub fn keybindings_section(self) -> (r: &'static str)
        ensures
            r@ == pick(self, "Keyboard Shortcuts"@, "键盘快捷键"@),
    {
        match self {
            Language::English => "Keyboard Shortcuts",
            Language::SimplifiedChinese => "键盘快捷键",
        }
    }

    pub fn recording_prompt(self) -> (r: &'static str)
        ensures
            r@ == pick(self, "Press shortcut…"@, "按下快捷键…"@),
    {
        match self {
            Language::English => "Press shortcut…",
            Language::SimplifiedChinese => "按下快捷键…",
        }
    }

    pub fn keybind_conflict(self, other: &str) -> (r: String)
        ensures
            r@ == pick(self, "Conflicts with "@ + other@, "与「"@ + other@ + "」冲突"@),
    {
        let mut r: String = String::new();
        match self {
            Language::English => {
                r.append("Conflicts with ");
                r.append(other);
                assert(r@ =~= "Conflicts with "@ + other@);
            },
            Language::SimplifiedChinese => {
                r.append("与「");
                r.append(other);
                r.append("」冲突");
                assert(r@ =~= "与「"@ + other@ + "」冲突"@);
            },
        }
        r
    }

    pub fn reset_to_default(self) -> (r: &'static str)
        ensures
            r@ == pick(self, "Reset"@, "恢复默认"@),
    {
        match self {
            Language::English => "Reset",
            Language::SimplifiedChinese => "恢复默认",
        }
    }

    pub fn reset_all(self) -> (r: &'static str)
        ensures
            r@ == pick(self, "Reset All"@, "全部恢复默认"@),
    {
        match self {
            Language::English => "Reset All",
            Language::SimplifiedChinese => "全部恢复默认",
        }
    }

    pub fn keybindings_hint(self) -> (r: &'static str)
        ensures
            r@ == pick(self, "Click a shortcut to record a new key combination."@, "点击快捷键即可录制新的组合键。"@),
    {
        match self {
            Language::English => "Click a shortcut to record a new key combination.",
            Language::SimplifiedChinese => "点击快捷键即可录制新的组合键。",
        }
    }

    // Action labels

    pub fn action_open_settings(self) -> (r: &'static str)
        ensures
            r@ == pick(self, "Open Settings"@, "打开设置"@),
    {
        match self {
            Language::English => "Open Settings",
            Language::SimplifiedChinese => "打开设置",
        }
    }

    pub fn action_quit(self) -> (r: &'static str)
        ensures
            r@ == pick(self, "Quit Eggie"@, "退出 Eggie"@),
    {
        match self {
            Language::English => "Quit Eggie",
            Language::SimplifiedChinese => "退出 Eggie",
        }
    }

    pub fn action_terminal_copy(self) -> (r: &'static str)
        ensures
            r@ == pick(self, "Copy"@, "复制"@),
    {
        match self {
            Language::English => "Copy",
            Language::SimplifiedChinese => "复制",
        }
    }

    pub fn action_terminal_paste(self) -> (r: &'static str)
        ensures
            r@ == pick(self, "Paste"@, "粘贴"@),
    {
        match self {
            Language::English => "Paste",
            Language::SimplifiedChinese => "粘贴",
        }
    }

    pub fn action_terminal_select_all(self) -> (r: &'static str)
        ensures
            r@ == pick(self, "Select All"@, "全选"@),
    {
        match self {
            Language::English => "Select All",
            Language::SimplifiedChinese => "全选",
        }
    }

    pub fn action_terminal_find(self) -> (r: &'static str)
        ensures
            r@ == pick(self, "Find"@, "查找"@),
    {
        match self {
            Language::English => "Find",
            Language::SimplifiedChinese => "查找",
        }
    }

    pub fn action_new_tab(self) -> (r: &'static str)
        ensures
            r@ == pick(self, "New Tab"@, "新建标签页"@),
    {
        match self {
            Language::English => "New Tab",
            Language::SimplifiedChinese => "新建标签页",
        }
    }

    pub fn action_new_window(self) -> (r: &'static str)
        ensures
            r@ == pick(self, "New Window"@, "新建窗口"@),
    {
        match self {
            Language::English => "New Window",
            Language::SimplifiedChinese => "新建窗口",
        }
    }

    pub fn action_close_tab(self) -> (r: &'static str)
        ensures
            r@ == pick(self, "Close Tab"@, "关闭标签页"@),
    {
        match self {
            Language::English => "Close Tab",
            Language::SimplifiedChinese => "关闭标签页",
        }
    }

    pub fn action_next_tab(self) -> (r: &'static str)
        ensures
            r@ == pick(self, "Next Tab"@, "下一个标签页"@),
    {
        match self {
            Language::English => "Next Tab",
            Language::SimplifiedChinese => "下一个标签页",
        }
    }

    pub fn action_prev_tab(self) -> (r: &'static str)
        ensures
            r@ == pick(self, "Previous Tab"@, "上一个标签页"@),
    {
        match self {
            Language::English => "Previous Tab",
            Language::SimplifiedChinese => "上一个标签页",
        }
    }

    pub fn action_split_right(self) -> (r: &'static str)
        ensures
            r@ == pick(self, "Split Right"@, "向右分屏"@),
    {
        match self {
            Language::English => "Split Right",
            Language::SimplifiedChinese => "向右分屏",
        }
    }

    pub fn action_split_down(self) -> (r: &'static str)
        ensures
            r@ == pick(self, "Split Down"@, "向下分屏"@),
    {
        match self {
            Language::English => "Split Down",
            Language::SimplifiedChinese => "向下分屏",
        }
    }

    pub fn action_clear_screen(self) -> (r: &'static str)
        ensures
            r@ == pick(self, "Clear Screen"@, "清屏"@),
    {
        match self {
            Language::English => "Clear Screen",
            Language::SimplifiedChinese => "清屏",
        }
    }

    pub fn action_scroll_top(self) -> (r: &'static str)
        ensures
            r@ == pick(self, "Scroll to Top"@, "滚动到顶部"@),
    {
        match self {
            Language::English => "Scroll to Top",
            Language::SimplifiedChinese => "滚动到顶部",
        }
    }

    pub fn action_scroll_bottom(self) -> (r: &'static str)
        ensures
            r@ == pick(self, "Scroll to Bottom"@, "滚动到底部"@),
    {
        match self {
            Language::English => "Scroll to Bottom",
            Language::SimplifiedChinese => "滚动到底部",
        }
    }

    pub fn action_page_up(self) -> (r: &'static str)
        ensures
            r@ == pick(self, "Page Up"@, "向上翻页"@),
    {
        match self {
            Language::English => "Page Up",
            Language::SimplifiedChinese => "向上翻页",
        }
    }

    pub fn action_page_down(self) -> (r: &'static str)
        ensures
            r@ == pick(self, "Page Down"@, "向下翻页"@),
    {
        match self {
            Language::English => "Page Down",
            Language::SimplifiedChinese => "向下翻页",
        }
    }

    pub fn action_font_increase(self) -> (r: &'static str)
        ensures
            r@ == pick(self, "Increase Font Size"@, "增大字号"@),
    {
        match self {
            Language::English => "Increase Font Size",
            Language::SimplifiedChinese => "增大字号",
        }
    }

    pub fn action_font_decrease(self) -> (r: &'static str)
        ensures
            r@ == pick(self, "Decrease Font Size"@, "减小字号"@),
    {
        match self {
            Language::English => "Decrease Font Size",
            Language::SimplifiedChinese => "减小字号",
        }
    }

    pub fn action_font_reset(self) -> (r: &'static str)
        ensures
            r@ == pick(self, "Reset Font Size"@, "重置字号"@),
    {
        match self {
            Language::English => "Reset Font Size",
            Language::SimplifiedChinese => "重置字号",
        }
    }

    // Bell

    pub fn bell_row(self) -> (r: &'static str)
        ensures
            r@ == pick(self, "Bell"@, "响铃"@),
    {
        match self {
            Language::English => "Bell",
            Language::SimplifiedChinese => "响铃",
        }
    }

    pub fn bell_description(self) -> (r: &'static str)
        ensures
            r@ == pick(self, "How to react when a program rings the terminal bell."@, "程序触发终端响铃时如何提示。"@),
    {
        match self {
            Language::English => "How to react when a program rings the terminal bell.",
            Language::SimplifiedChinese => "程序触发终端响铃时如何提示。",
        }
    }

    pub fn bell_mode_silent(self) -> (r: &'static str)
        ensures
            r@ == pick(self, "Silent"@, "静默"@),
    {
        match self {
            Language::English => "Silent",
            Language::SimplifiedChinese => "静默",
        }
    }

    pub fn bell_mode_flash(self) -> (r: &'static str)
        ensures
            r@ == pick(self, "Flash"@, "闪动"@),
    {
        match self {
            Language::English => "Flash",
            Language::SimplifiedChinese => "闪动",
        }
    }

    pub fn bell_mode_sound(self) -> (r: &'static str)
        ensures
            r@ == pick(self, "Sound"@, "声音"@),
    {
        match self {
            Language::English => "Sound",
            Language::SimplifiedChinese => "声音",
        }
    }

    pub fn bell_mode_flash_and_sound(self) -> (r: &'static str)
        ensures
            r@ == pick(self, "Both"@, "闪动+声音"@),
    {
        match self {
            Language::English => "Both",
            Language::SimplifiedChinese => "闪动+声音",
        }
    }

    pub fn action_jump_prev_prompt(self) -> (r: &'static str)
        ensures
            r@ == pick(self, "Jump to Previous Command"@, "跳到上一条命令"@),
    {
        match self {
            Language::English => "Jump to Previous Command",
            Language::SimplifiedChinese => "跳到上一条命令",
        }
    }

    pub fn action_jump_next_prompt(self) -> (r: &'static str)
        ensures
            r@ == pick(self, "Jump to Next Command"@, "跳到下一条命令"@),
    {
        match self {
            Language::English => "Jump to Next Command",
            Language::SimplifiedChinese => "跳到下一条命令",
        }
    }

}

/// A text is in the language that was chosen.
pub proof fn a_text_is_in_its_language(english: Seq<char>, chinese: Seq<char>)
    ensures
        pick(Language::English, english, chinese) == english,
        pick(Language::SimplifiedChinese, english, chinese) == chinese,
{
}

} // verus!
