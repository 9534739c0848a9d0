//! The service as its callers see it: the session registry, the tabs,
//! the telemetry samples and the store, side by side.

use vstd::prelude::*;
use crate::models::connection::CommandOptions;
use crate::services::command::{
    CommandRun, ReaderModel, SshCommandExecutor, active_patterns, active_timeout, command_line,
};
use crate::services::connection::{SshConnectionManager, begin_step, end_step, lookup};
use crate::services::error::{ConnectionError, ErrorModel};
use crate::services::hardware::SshHardwareService;
use crate::services::storage::ConnectionStorage;
use crate::services::tab_manager::SshTabManager;
use crate::utils::crypto::KEY_LEN;

verus! {

/// The parts of the service.
pub struct SshService {
    pub connection_manager: SshConnectionManager,
    pub tab_manager: SshTabManager,
    pub hardware_service: SshHardwareService,
    pub storage: ConnectionStorage,
}

impl SshService {
    /// Every part is well formed.
    pub open spec fn wf(&self) -> bool {
        &&& self.connection_manager.wf()
        &&& self.tab_manager.wf()
        &&& self.hardware_service.wf()
        &&& self.storage.wf()
    }

    /// A service without sessions, tabs or samples, over an empty store
    /// under `master_key`.
    pub fn new(master_key: Vec<u8>) -> (service: Self)
        requires
            master_key.len() == KEY_LEN,
        ensures
            service.wf(),
            service.connection_manager@.len() == 0,
            service.tab_manager@.len() == 0,
            service.hardware_service@.len() == 0,
            service.storage@.connections.len() == 0,
            service.storage@.tabs.len() == 0,
            service.storage@.master_key == master_key@,
    {
        SshService {
            connection_manager: SshConnectionManager::new(),
            tab_manager: SshTabManager::new(),
            hardware_service: SshHardwareService::new(),
            storage: ConnectionStorage::new(master_key),
        }
    }

    /// Begins the execution of `command` on the connection
    /// `connection_id` under `options`: the shell channel, now marked as
    /// in use, the line to write and the read loop. Refused, with nothing
    /// changed, where no session stands under the identifier, where the
    /// session is not connected, where it has no shell channel, or where a
    /// command is under way on it.
    pub fn execute_command_with_options(
        &mut self,
        connection_id: &str,
        command: &str,
        options: CommandOptions,
    ) -> (result: Result<(u64, CommandRun), ConnectionError>)
        requires
            old(self).wf(),
        ensures
            final(self).wf(),
            final(self).connection_manager@ == begin_step(
                old(self).connection_manager@,
                connection_id@,
            ).0,
            final(self).tab_manager@ == old(self).tab_manager@,
            final(self).hardware_service@ == old(self).hardware_service@,
            final(self).storage@ == old(self).storage@,
            match result {
                Ok((channel, run)) => begin_step(old(self).connection_manager@, connection_id@).1
                    == Ok::<u64, ErrorModel>(channel) && run.line@ == command_line(command@)
                    && run.reader@ == ({
                    let settings = lookup(
                        old(self).connection_manager@,
                        connection_id@,
                    )->0.config.prompt_config;
                    ReaderModel {
                        patterns: active_patterns(settings.patterns, options@.custom_prompts),
                        smart_detection: settings.smart_detection,
                        max_wait_time: active_timeout(settings.max_wait_time, options@.timeout),
                        max_empty_reads: settings.max_empty_reads,
                        wait_for_prompt: options@.wait_for_prompt,
                        output: Seq::<char>::empty(),
                        empty_reads: 0,
                        last_data_at: 0,
                        stopped: None,
                    }
                }),
                Err(error) => begin_step(old(self).connection_manager@, connection_id@).1 == Err::<
                    u64,
                    ErrorModel,
                >(error@),
            },
    {
        let session = match self.connection_manager.get_ssh_connection(connection_id) {
            Ok(session) => session,
            Err(error) => {
                return Err(error);
            },
        };
        match self.connection_manager.begin_command(connection_id) {
            Ok(channel) => Ok(
                (
                    channel,
                    SshCommandExecutor::execute_command_with_options(
                        &session.config,
                        command,
                        options,
                    ),
                ),
            ),
            Err(error) => Err(error),
        }
    }

    /// Begins the execution of `command` on the connection
    /// `connection_id` under the default options.
    pub fn execute_command(&mut self, connection_id: &str, command: &str) -> (result: Result<
        (u64, CommandRun),
        ConnectionError,
    >)
        requires
            old(self).wf(),
        ensures
            final(self).wf(),
            final(self).connection_manager@ == begin_step(
                old(self).connection_manager@,
                connection_id@,
            ).0,
            match result {
                Ok((channel, run)) => begin_step(old(self).connection_manager@, connection_id@).1
                    == Ok::<u64, ErrorModel>(channel) && run.line@ == command_line(command@)
                    && run.reader@ == ({
                    let settings = lookup(
                        old(self).connection_manager@,
                        connection_id@,
                    )->0.config.prompt_config;
                    ReaderModel {
                        patterns: settings.patterns,
                        smart_detection: settings.smart_detection,
                        max_wait_time: settings.max_wait_time,
                        max_empty_reads: settings.max_empty_reads,
                        wait_for_prompt: true,
                        output: Seq::<char>::empty(),
                        empty_reads: 0,
                        last_data_at: 0,
                        stopped: None,
                    }
                }),
                Err(error) => begin_step(old(self).connection_manager@, connection_id@).1 == Err::<
                    u64,
                    ErrorModel,
                >(error@),
            },
    {
        self.execute_command_with_options(connection_id, command, CommandOptions::default())
    }

    /// Ends the execution of a command on the connection `connection_id`:
    /// its shell channel is free again.
    pub fn finish_command(&mut self, connection_id: &str)
        requires
            old(self).wf(),
        ensures
            final(self).wf(),
            final(self).connection_manager@ == end_step(
                old(self).connection_manager@,
                connection_id@,
            ),
    {
        self.connection_manager.end_command(connection_id);
    }
}

} // verus!
