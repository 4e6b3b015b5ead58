//! The command-line surface as data: the subcommands each management area
//! accepts. Argument parsing lives with the surrounding program, which
//! hands these values in.

use vstd::prelude::*;

verus! {

/// 服务管理子命令
#[derive(Clone, Debug)]
pub enum ServiceCommands {
    /// 安装守护进程服务单元，支持自动启动和重启
    Install,
    /// 启动守护进程服务
    Start,
    /// 停止守护进程服务
    Stop,
    /// 查看守护进程服务状态
    Status,
    /// 卸载守护进程服务单元
    Uninstall,
}

/// 通道管理子命令
#[derive(Clone, Debug)]
pub enum ChannelCommands {
    /// 列出所有已配置的通道
    List,
    /// 启动所有已配置的通道
    Start,
    /// 运行已配置通道的健康检查
    Doctor,
    /// 添加新的通道配置
    Add { channel_type: String, config: String },
    /// 移除通道配置
    Remove { name: String },
}

/// 技能管理子命令
#[derive(Clone, Debug)]
pub enum SkillCommands {
    /// 列出所有已安装的技能
    List,
    /// 从 URL 或本地路径安装新技能
    Install { source: String },
    /// 移除已安装的技能
    Remove { name: String },
}

/// 迁移子命令
#[derive(Clone, Debug)]
pub enum MigrateCommands {
    /// 从其他工作区导入记忆到当前工作区
    Openclaw { source: Option<String>, dry_run: bool },
}

/// 定时任务子命令
#[derive(Clone, Debug)]
pub enum CronCommands {
    /// 列出所有定时任务
    List,
    /// 添加新的定时任务
    Add { expression: String, command: String },
    /// 移除定时任务
    Remove { id: String },
}

/// 集成子命令
#[derive(Clone, Debug)]
pub enum IntegrationCommands {
    /// 显示指定集成的详细信息
    Info { name: String },
}

} // verus!
